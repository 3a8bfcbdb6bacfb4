use vstd::prelude::*;
use vstd::string::*;

verus! {

// ---------------------------------------------------------------------------
// Decimal rendering of integers, as a sequence of characters.
// ---------------------------------------------------------------------------

/// The character for a single decimal digit value in 0..=9.
pub open spec fn digit_char(d: int) -> char {
    ((d + 48) as u8) as char
}

/// The decimal digits of a non-negative number, most significant first.
pub open spec fn dec_digits(n: nat) -> Seq<char>
    decreases n,
{
    if n < 10 {
        seq![digit_char(n as int)]
    } else {
        dec_digits(n / 10).push(digit_char((n % 10) as int))
    }
}

/// The decimal form of an integer, with a leading '-' when negative.
pub open spec fn dec_int(i: int) -> Seq<char> {
    if i < 0 {
        seq!['-'] + dec_digits((-i) as nat)
    } else {
        dec_digits(i as nat)
    }
}

fn push_dec_u32(n: u32, out: &mut Vec<char>)
    ensures
        final(out)@ == old(out)@ + dec_digits(n as nat),
    decreases n,
{
    if n < 10 {
        out.push((48 + n as u8) as char);
        assert(out@ =~= old(out)@ + dec_digits(n as nat));
    } else {
        push_dec_u32(n / 10, out);
        out.push((48 + (n % 10) as u8) as char);
        assert(out@ =~= old(out)@ + dec_digits(n as nat));
    }
}

/// The decimal form of an `i32`, as characters.
pub fn i32_to_chars(i: i32) -> (r: Vec<char>)
    ensures
        r@ == dec_int(i as int),
{
    let mut chars: Vec<char> = Vec::new();
    if i < 0 {
        chars.push('-');
        let m: u32 = (-(i as i64)) as u32;
        assert(m as nat == (-(i as int)) as nat);
        push_dec_u32(m, &mut chars);
        assert(chars@ =~= dec_int(i as int));
    } else {
        push_dec_u32(i as u32, &mut chars);
        assert(chars@ =~= dec_int(i as int));
    }
    chars
}

/// The decimal form of an `i32`, as a `String`.
pub fn i32_to_string(i: i32) -> (r: String)
    ensures
        r@ == dec_int(i as int),
{
    let chars = i32_to_chars(i);
    chars_to_string(&chars)
}

// ---------------------------------------------------------------------------
// Decimal parsing.
// ---------------------------------------------------------------------------

pub open spec fn is_digit(c: char) -> bool {
    48 <= c as int && c as int <= 57
}

pub open spec fn digit_val(c: char) -> int {
    c as int - 48
}

pub open spec fn all_digits(s: Seq<char>) -> bool {
    forall|i: int| 0 <= i < s.len() ==> is_digit(#[trigger] s[i])
}

/// The value of a sequence of decimal digits, most significant first.
pub open spec fn dec_val(s: Seq<char>) -> int
    decreases s.len(),
{
    if s.len() == 0 {
        0
    } else {
        dec_val(s.drop_last()) * 10 + digit_val(s.last())
    }
}

/// What `str::parse::<u64>` accepts: optional '+', then one or more digits,
/// value within range.
pub open spec fn parse_u64_spec(s: Seq<char>) -> Option<u64> {
    let t = if s.len() > 0 && s[0] == '+' {
        s.subrange(1, s.len() as int)
    } else {
        s
    };
    if t.len() > 0 && all_digits(t) && dec_val(t) <= u64::MAX {
        Some(dec_val(t) as u64)
    } else {
        None
    }
}

/// What `str::parse::<u32>` accepts.
pub open spec fn parse_u32_spec(s: Seq<char>) -> Option<u32> {
    let t = if s.len() > 0 && s[0] == '+' {
        s.subrange(1, s.len() as int)
    } else {
        s
    };
    if t.len() > 0 && all_digits(t) && dec_val(t) <= u32::MAX {
        Some(dec_val(t) as u32)
    } else {
        None
    }
}

/// What `str::parse::<i32>` accepts: optional sign, then digits, within range.
pub open spec fn parse_i32_spec(s: Seq<char>) -> Option<i32> {
    let neg = s.len() > 0 && s[0] == '-';
    let t = if s.len() > 0 && (s[0] == '-' || s[0] == '+') {
        s.subrange(1, s.len() as int)
    } else {
        s
    };
    if t.len() > 0 && all_digits(t) {
        if neg && dec_val(t) <= 0x8000_0000 {
            Some((-dec_val(t)) as i32)
        } else if !neg && dec_val(t) <= 0x7fff_ffff {
            Some(dec_val(t) as i32)
        } else {
            None
        }
    } else {
        None
    }
}

pub proof fn lemma_dec_val_nonneg(s: Seq<char>)
    requires
        all_digits(s),
    ensures
        dec_val(s) >= 0,
    decreases s.len(),
{
    if s.len() > 0 {
        assert(all_digits(s.drop_last())) by {
            assert(forall|i: int|
                0 <= i < s.drop_last().len() ==> s.drop_last()[i] == #[trigger] s[i]);
        }
        lemma_dec_val_nonneg(s.drop_last());
    }
}

/// Extending a digit string on the right can only increase its value.
proof fn lemma_dec_val_prefix(s: Seq<char>, k: int)
    requires
        all_digits(s),
        0 <= k <= s.len(),
    ensures
        dec_val(s) >= dec_val(s.subrange(0, k)),
    decreases s.len() - k,
{
    if k < s.len() {
        lemma_dec_val_prefix(s, k + 1);
        let a = s.subrange(0, k);
        let b = s.subrange(0, k + 1);
        assert(b.drop_last() =~= a);
        assert(all_digits(b)) by {
            assert(forall|i: int| 0 <= i < b.len() ==> b[i] == #[trigger] s[i]);
        }
        lemma_dec_val_nonneg(a);
        assert(dec_val(b) == dec_val(a) * 10 + digit_val(s[k]));
        assert(dec_val(b) >= dec_val(a));
    } else {
        assert(s.subrange(0, k) =~= s);
    }
}

/// Parse decimal digits with optional leading '+', exactly as `str::parse::<u64>`.
pub fn parse_u64_chars(v: &Vec<char>) -> (r: Option<u64>)
    ensures
        r == parse_u64_spec(v@),
{
    let mut i: usize = 0;
    if v.len() > 0 && v[0] == '+' {
        i = 1;
    }
    let ghost t = if v@.len() > 0 && v@[0] == '+' {
        v@.subrange(1, v@.len() as int)
    } else {
        v@
    };
    assert(t =~= v@.subrange(i as int, v@.len() as int));
    if i == v.len() {
        return None;
    }
    let mut acc: u64 = 0;
    let mut j: usize = i;
    while j < v.len()
        invariant
            i <= j <= v@.len(),
            t == (if v@.len() > 0 && v@[0] == '+' {
                v@.subrange(1, v@.len() as int)
            } else {
                v@
            }),
            t == v@.subrange(i as int, v@.len() as int),
            all_digits(t.subrange(0, (j - i) as int)),
            acc == dec_val(t.subrange(0, (j - i) as int)),
        decreases v@.len() - j,
    {
        let c = v[j];
        if c < '0' || c > '9' {
            assert(!is_digit(t[(j - i) as int]));
            assert(!all_digits(t));
            return None;
        }
        let d = (c as u32) - 48;
        let ghost pre = t.subrange(0, (j - i) as int);
        let ghost cur = t.subrange(0, (j - i + 1) as int);
        proof {
            assert(cur.drop_last() =~= pre);
            assert(cur.last() == t[(j - i) as int]);
            assert(is_digit(cur.last()));
            assert forall|x: int| 0 <= x < cur.len() implies is_digit(#[trigger] cur[x]) by {
                if x < pre.len() {
                    assert(cur[x] == pre[x]);
                    assert(is_digit(pre[x]));
                } else {
                    assert(cur[x] == cur.last());
                }
            }
            assert(all_digits(cur));
        }
        let acc10 = match acc.checked_mul(10) {
            Some(a) => a,
            None => {
                proof {
                    lemma_dec_val_nonneg(pre);
                    assert(dec_val(cur) == dec_val(pre) * 10 + digit_val(cur.last()));
                    assert(dec_val(cur) > u64::MAX);
                    if all_digits(t) {
                        lemma_dec_val_prefix(t, (j - i + 1) as int);
                        assert(dec_val(t) > u64::MAX);
                    }
                }
                return None;
            },
        };
        let acc2 = match acc10.checked_add(d as u64) {
            Some(a) => a,
            None => {
                proof {
                    assert(dec_val(cur) == dec_val(pre) * 10 + digit_val(cur.last()));
                    assert(dec_val(cur) > u64::MAX);
                    if all_digits(t) {
                        lemma_dec_val_prefix(t, (j - i + 1) as int);
                        assert(dec_val(t) > u64::MAX);
                    }
                }
                return None;
            },
        };
        acc = acc2;
        j += 1;
        assert(acc == dec_val(t.subrange(0, (j - i) as int)));
    }
    assert(t.subrange(0, (j - i) as int) =~= t);
    Some(acc)
}

/// Parse exactly as `str::parse::<u32>`.
pub fn parse_u32_chars(v: &Vec<char>) -> (r: Option<u32>)
    ensures
        r == parse_u32_spec(v@),
{
    let r64 = parse_u64_chars(v);
    let ghost t = if v@.len() > 0 && v@[0] == '+' {
        v@.subrange(1, v@.len() as int)
    } else {
        v@
    };
    proof {
        if t.len() > 0 && all_digits(t) {
            lemma_dec_val_nonneg(t);
        }
    }
    match r64 {
        Some(n) => {
            if n <= 0xffff_ffff {
                Some(n as u32)
            } else {
                None
            }
        },
        None => None,
    }
}

/// Parse exactly as `str::parse::<i32>`.
pub fn parse_i32_chars(v: &Vec<char>) -> (r: Option<i32>)
    ensures
        r == parse_i32_spec(v@),
{
    if v.len() > 0 && v[0] == '-' {
        let rest = copy_range(v, 1, v.len());
        let ghost t = v@.subrange(1, v@.len() as int);
        assert(rest@ == t);
        if rest.len() > 0 && rest[0] == '+' {
            assert(!is_digit(t[0]));
            assert(!all_digits(t));
            return None;
        }
        let r64 = parse_u64_chars(&rest);
        proof {
            if t.len() > 0 && all_digits(t) {
                lemma_dec_val_nonneg(t);
            }
        }
        match r64 {
            Some(n) => {
                if n <= 0x8000_0000 {
                    Some((-(n as i64)) as i32)
                } else {
                    None
                }
            },
            None => None,
        }
    } else {
        let r64 = parse_u64_chars(v);
        let ghost t = if v@.len() > 0 && v@[0] == '+' {
            v@.subrange(1, v@.len() as int)
        } else {
            v@
        };
        proof {
            if t.len() > 0 && all_digits(t) {
                lemma_dec_val_nonneg(t);
            }
        }
        match r64 {
            Some(n) => {
                if n <= 0x7fff_ffff {
                    Some(n as i32)
                } else {
                    None
                }
            },
            None => None,
        }
    }
}

// ---------------------------------------------------------------------------
// Bridging between `String` / `&str` and `Vec<char>`.
// ---------------------------------------------------------------------------

/// Relies on `String::push`: appends the given character to the end of the
/// string.
#[verifier::external_body]
fn push_char(s: &mut String, c: char)
    ensures
        final(s)@ == old(s)@.push(c),
{
    s.push(c);
}

/// Builds a `String` holding exactly the given characters.
pub fn chars_to_string(v: &Vec<char>) -> (r: String)
    ensures
        r@ == v@,
{
    let mut s = String::new();
    let mut i: usize = 0;
    while i < v.len()
        invariant
            i <= v@.len(),
            s@ == v@.subrange(0, i as int),
        decreases v@.len() - i,
    {
        push_char(&mut s, v[i]);
        assert(s@ =~= v@.subrange(0, i as int + 1));
        i += 1;
    }
    assert(s@ =~= v@);
    s
}

/// The characters of a string slice, in order.
pub fn str_to_chars(s: &str) -> (r: Vec<char>)
    ensures
        r@ == s@,
{
    let n = s.unicode_len();
    let mut out: Vec<char> = Vec::new();
    let mut i: usize = 0;
    while i < n
        invariant
            n == s@.len(),
            i <= n,
            out@ == s@.subrange(0, i as int),
        decreases n - i,
    {
        let c = s.get_char(i);
        out.push(c);
        assert(out@ =~= s@.subrange(0, i as int + 1));
        i += 1;
    }
    assert(out@ =~= s@);
    out
}

/// Whether two string slices hold the same characters.
pub fn str_eq(a: &str, b: &str) -> (r: bool)
    ensures
        r == (a@ == b@),
{
    let na = a.unicode_len();
    let nb = b.unicode_len();
    if na != nb {
        assert(a@ != b@);
        return false;
    }
    let mut i: usize = 0;
    while i < na
        invariant
            na == a@.len(),
            nb == b@.len(),
            na == nb,
            i <= na,
            a@.subrange(0, i as int) == b@.subrange(0, i as int),
        decreases na - i,
    {
        if a.get_char(i) != b.get_char(i) {
            assert(a@[i as int] != b@[i as int]);
            return false;
        }
        assert(a@.subrange(0, i as int + 1) =~= b@.subrange(0, i as int + 1));
        i += 1;
    }
    proof {
        assert forall|k: int| 0 <= k < a@.len() implies a@[k] == b@[k] by {
            assert(a@[k] == a@.subrange(0, na as int)[k]);
            assert(b@[k] == b@.subrange(0, na as int)[k]);
        }
        assert(a@ =~= b@);
    }
    true
}

/// Whether a string slice holds the same characters as a vector.
pub fn str_eq_chars(a: &str, b: &Vec<char>) -> (r: bool)
    ensures
        r == (a@ == b@),
{
    let na = a.unicode_len();
    if na != b.len() {
        assert(a@ != b@);
        return false;
    }
    let mut i: usize = 0;
    while i < na
        invariant
            na == a@.len(),
            na == b@.len(),
            i <= na,
            forall|k: int| 0 <= k < i ==> a@[k] == b@[k],
        decreases na - i,
    {
        if a.get_char(i) != b[i] {
            return false;
        }
        i += 1;
    }
    assert(a@ =~= b@);
    true
}

/// The view of a vector of character vectors, as a sequence of sequences.
pub open spec fn names_view(v: Vec<Vec<char>>) -> Seq<Seq<char>> {
    v@.map_values(|e: Vec<char>| e@)
}

/// A copy of the elements of `v` in positions `from .. to`.
pub fn copy_range(v: &Vec<char>, from: usize, to: usize) -> (r: Vec<char>)
    requires
        from <= to <= v@.len(),
    ensures
        r@ == v@.subrange(from as int, to as int),
{
    let mut out: Vec<char> = Vec::new();
    let mut i: usize = from;
    while i < to
        invariant
            from <= i <= to <= v@.len(),
            out@ == v@.subrange(from as int, i as int),
        decreases to - i,
    {
        out.push(v[i]);
        assert(out@ =~= v@.subrange(from as int, i as int + 1));
        i += 1;
    }
    out
}

// ---------------------------------------------------------------------------
// Splitting on a separator character.
// ---------------------------------------------------------------------------

/// Position of the first `sep` at or after `k`, or the length when none.
pub open spec fn find_char(s: Seq<char>, sep: char, k: int) -> int
    decreases s.len() - k,
    when 0 <= k <= s.len()
{
    if k >= s.len() {
        s.len() as int
    } else if s[k] == sep {
        k
    } else {
        find_char(s, sep, k + 1)
    }
}

/// The parts of `s` between occurrences of `sep` — as `str::split` yields
/// them, empty parts included.
pub open spec fn split_on(s: Seq<char>, sep: char) -> Seq<Seq<char>>
    decreases s.len(),
{
    let j = find_char(s, sep, 0);
    if 0 <= j < s.len() {
        seq![s.subrange(0, j)] + split_on(s.subrange(j + 1, s.len() as int), sep)
    } else {
        seq![s]
    }
}

fn find_char_exec(v: &Vec<char>, sep: char, k: usize) -> (r: usize)
    requires
        k <= v@.len(),
    ensures
        r == find_char(v@, sep, k as int),
        k <= r <= v@.len(),
{
    let mut j = k;
    while j < v.len()
        invariant
            k <= j <= v@.len(),
            find_char(v@, sep, k as int) == find_char(v@, sep, j as int),
        decreases v@.len() - j,
    {
        if v[j] == sep {
            return j;
        }
        j += 1;
    }
    j
}

/// The parts of `v` between occurrences of `sep`, empty parts included.
pub fn split_chars(v: &Vec<char>, sep: char) -> (r: Vec<Vec<char>>)
    ensures
        names_view(r) == split_on(v@, sep),
    decreases v@.len(),
{
    let j = find_char_exec(v, sep, 0);
    if j < v.len() {
        let head = copy_range(v, 0, j);
        let tail = copy_range(v, j + 1, v.len());
        let mut rest = split_chars(&tail, sep);
        let ghost rv = names_view(rest);
        rest.insert(0, head);
        proof {
            assert(names_view(rest) =~= seq![head@] + rv);
            assert(seq![head@] + split_on(tail@, sep) =~= split_on(v@, sep));
        }
        rest
    } else {
        let whole = copy_range(v, 0, v.len());
        let mut out: Vec<Vec<char>> = Vec::new();
        out.push(whole);
        proof {
            assert(whole@ =~= v@);
            assert(names_view(out) =~= seq![v@]);
        }
        out
    }
}

// ---------------------------------------------------------------------------
// Hexadecimal digits.
// ---------------------------------------------------------------------------

pub open spec fn is_hex_digit(c: char) -> bool {
    ('0' <= c && c <= '9') || ('a' <= c && c <= 'f') || ('A' <= c && c <= 'F')
}

pub open spec fn hex_digit_val(c: char) -> int {
    if '0' <= c && c <= '9' {
        c as int - 48
    } else if 'a' <= c && c <= 'f' {
        c as int - 97 + 10
    } else {
        c as int - 65 + 10
    }
}

pub open spec fn all_hex_digits(s: Seq<char>) -> bool {
    forall|i: int| 0 <= i < s.len() ==> is_hex_digit(#[trigger] s[i])
}

/// The value of a sequence of hexadecimal digits, most significant first.
pub open spec fn hex_val(s: Seq<char>) -> int
    decreases s.len(),
{
    if s.len() == 0 {
        0
    } else {
        hex_val(s.drop_last()) * 16 + hex_digit_val(s.last())
    }
}

} // verus!
