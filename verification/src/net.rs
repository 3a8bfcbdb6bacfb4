use vstd::prelude::*;
use crate::text::{
    all_digits,
    all_hex_digits,
    dec_val,
    hex_digit_val,
    hex_val,
    is_digit,
    is_hex_digit,
    names_view,
    parse_u64_chars,
    parse_u64_spec,
    split_chars,
    split_on,
};

verus! {

// ---------------------------------------------------------------------------
// Address literals. An IPv4 literal is four dotted decimal octets without
// leading zeros. An IPv6 literal is eight colon-separated groups of one to
// four hexadecimal digits, or fewer groups with a single `::` standing for
// the missing zero groups.
// ---------------------------------------------------------------------------

/// A decimal octet: one to three digits, no leading zero, at most 255.
pub open spec fn is_octet(s: Seq<char>) -> bool {
    &&& 1 <= s.len() <= 3
    &&& all_digits(s)
    &&& dec_val(s) <= 255
    &&& (s.len() > 1 ==> s[0] != '0')
}

/// The four octets of an IPv4 literal, or nothing.
pub open spec fn ipv4_spec(s: Seq<char>) -> Option<(u8, u8, u8, u8)> {
    let ps = split_on(s, '.');
    if ps.len() == 4 && is_octet(ps[0]) && is_octet(ps[1]) && is_octet(ps[2]) && is_octet(
        ps[3],
    ) {
        Some(
            (
                dec_val(ps[0]) as u8,
                dec_val(ps[1]) as u8,
                dec_val(ps[2]) as u8,
                dec_val(ps[3]) as u8,
            ),
        )
    } else {
        None
    }
}

/// One to four hexadecimal digits.
pub open spec fn is_h16(s: Seq<char>) -> bool {
    1 <= s.len() <= 4 && all_hex_digits(s)
}

pub open spec fn all_h16(ps: Seq<Seq<char>>) -> bool {
    forall|i: int| 0 <= i < ps.len() ==> is_h16(#[trigger] ps[i])
}

pub open spec fn h16_vals(ps: Seq<Seq<char>>) -> Seq<u16> {
    ps.map_values(|p: Seq<char>| hex_val(p) as u16)
}

pub open spec fn zeros16(n: nat) -> Seq<u16> {
    Seq::new(n, |i: int| 0u16)
}

/// Position of the first empty part at or after `k`, or the length.
pub open spec fn find_empty(ps: Seq<Seq<char>>, k: int) -> int
    decreases ps.len() - k,
    when 0 <= k <= ps.len()
{
    if k >= ps.len() {
        ps.len() as int
    } else if ps[k].len() == 0 {
        k
    } else {
        find_empty(ps, k + 1)
    }
}

/// The two 16-bit groups an embedded dotted-quad tail stands for.
pub open spec fn v4_tail_groups(o: (u8, u8, u8, u8)) -> Seq<u16> {
    seq![
        (o.0 as int * 256 + o.1 as int) as u16,
        (o.2 as int * 256 + o.3 as int) as u16,
    ]
}

/// The groups of an IPv6 literal whose last part is an embedded IPv4
/// literal: the hex parts before it must amount to exactly six groups,
/// plainly or with one `::` compression.
pub open spec fn ipv6_hex_with_v4(hex: Seq<Seq<char>>, v4: Seq<u16>) -> Option<Seq<u16>> {
    let m = hex.len() as int;
    if m == 6 && all_h16(hex) {
        Some(h16_vals(hex) + v4)
    } else if m >= 2 && hex[0].len() == 0 && hex[1].len() == 0 {
        let tail = hex.skip(2);
        if all_h16(tail) && tail.len() <= 5 {
            Some(zeros16((6 - tail.len()) as nat) + h16_vals(tail) + v4)
        } else {
            None
        }
    } else {
        let e = find_empty(hex, 0);
        if 0 < e < m && find_empty(hex, e + 1) == m {
            let head = hex.take(e);
            let tail = hex.skip(e + 1);
            if all_h16(head) && all_h16(tail) && head.len() + tail.len() <= 5 {
                Some(
                    h16_vals(head) + zeros16((6 - head.len() - tail.len()) as nat) + h16_vals(
                        tail,
                    ) + v4,
                )
            } else {
                None
            }
        } else {
            None
        }
    }
}

/// The eight 16-bit groups of an IPv6 literal, or nothing. The last part may
/// be an embedded IPv4 literal standing for the final two groups.
pub open spec fn ipv6_spec(s: Seq<char>) -> Option<Seq<u16>> {
    let ps = split_on(s, ':');
    let n = ps.len() as int;
    match ipv4_spec(ps[n - 1]) {
        Some(o) => ipv6_hex_with_v4(ps.subrange(0, n - 1), v4_tail_groups(o)),
        None => ipv6_plain(ps),
    }
}

/// The groups of a colon-separated IPv6 literal without an embedded IPv4
/// tail.
pub open spec fn ipv6_plain(ps: Seq<Seq<char>>) -> Option<Seq<u16>> {
    let n = ps.len() as int;
    if n == 3 && ps[0].len() == 0 && ps[1].len() == 0 && ps[2].len() == 0 {
        Some(zeros16(8))
    } else if n >= 3 && ps[0].len() == 0 && ps[1].len() == 0 {
        let tail = ps.skip(2);
        if all_h16(tail) && tail.len() <= 7 {
            Some(zeros16((8 - tail.len()) as nat) + h16_vals(tail))
        } else {
            None
        }
    } else if n >= 3 && ps[n - 1].len() == 0 && ps[n - 2].len() == 0 {
        let head = ps.take(n - 2);
        if all_h16(head) && head.len() <= 7 {
            Some(h16_vals(head) + zeros16((8 - head.len()) as nat))
        } else {
            None
        }
    } else {
        let e = find_empty(ps, 0);
        if e == n {
            if n == 8 && all_h16(ps) {
                Some(h16_vals(ps))
            } else {
                None
            }
        } else if 0 < e < n - 1 && find_empty(ps, e + 1) == n {
            let head = ps.take(e);
            let tail = ps.skip(e + 1);
            if all_h16(head) && all_h16(tail) && head.len() + tail.len() <= 7 {
                Some(
                    h16_vals(head) + zeros16((8 - head.len() - tail.len()) as nat) + h16_vals(
                        tail,
                    ),
                )
            } else {
                None
            }
        } else {
            None
        }
    }
}

// ---------------------------------------------------------------------------
// Executable parsing.
// ---------------------------------------------------------------------------

fn parse_octet(v: &Vec<char>) -> (r: Option<u8>)
    ensures
        match r {
            Some(n) => is_octet(v@) && n == dec_val(v@),
            None => !is_octet(v@),
        },
{
    if v.len() < 1 || v.len() > 3 {
        return None;
    }
    if v.len() > 1 && v[0] == '0' {
        return None;
    }
    if v[0] == '+' {
        assert(!is_digit(v@[0]));
        return None;
    }
    let p = parse_u64_chars(v);
    proof {
        if all_digits(v@) {
            crate::text::lemma_dec_val_nonneg(v@);
        }
    }
    match p {
        Some(n) => {
            if n <= 255 {
                Some(n as u8)
            } else {
                None
            }
        },
        None => None,
    }
}

/// Parses an IPv4 literal.
pub fn parse_ipv4_chars(v: &Vec<char>) -> (r: Option<(u8, u8, u8, u8)>)
    ensures
        r == ipv4_spec(v@),
{
    let parts = split_chars(v, '.');
    let ghost ps = split_on(v@, '.');
    proof {
        assert(names_view(parts).len() == parts@.len());
    }
    if parts.len() != 4 {
        return None;
    }
    assert(parts@[0]@ == ps[0] && parts@[1]@ == ps[1] && parts@[2]@ == ps[2] && parts@[3]@
        == ps[3]);
    let a = match parse_octet(&parts[0]) {
        Some(x) => x,
        None => {
            return None;
        },
    };
    let b = match parse_octet(&parts[1]) {
        Some(x) => x,
        None => {
            return None;
        },
    };
    let c = match parse_octet(&parts[2]) {
        Some(x) => x,
        None => {
            return None;
        },
    };
    let d = match parse_octet(&parts[3]) {
        Some(x) => x,
        None => {
            return None;
        },
    };
    Some((a, b, c, d))
}

spec fn pow16(n: nat) -> int
    decreases n,
{
    if n == 0 {
        1
    } else {
        16 * pow16((n - 1) as nat)
    }
}

proof fn lemma_hex_val_bound(s: Seq<char>)
    requires
        all_hex_digits(s),
    ensures
        0 <= hex_val(s) < pow16(s.len()),
    decreases s.len(),
{
    if s.len() > 0 {
        assert(all_hex_digits(s.drop_last())) by {
            assert(forall|i: int|
                0 <= i < s.drop_last().len() ==> s.drop_last()[i] == #[trigger] s[i]);
        }
        lemma_hex_val_bound(s.drop_last());
        assert(is_hex_digit(s.last()));
        assert(0 <= hex_digit_val(s.last()) < 16);
    }
}

fn parse_h16(v: &Vec<char>) -> (r: Option<u16>)
    ensures
        match r {
            Some(n) => is_h16(v@) && n == hex_val(v@),
            None => !is_h16(v@),
        },
{
    if v.len() < 1 || v.len() > 4 {
        return None;
    }
    let mut acc: u32 = 0;
    let mut k: usize = 0;
    while k < v.len()
        invariant
            k <= v@.len(),
            v@.len() <= 4,
            all_hex_digits(v@.subrange(0, k as int)),
            acc == hex_val(v@.subrange(0, k as int)),
            acc < 0x10000,
        decreases v@.len() - k,
    {
        let c = v[k];
        let d: u32;
        if '0' <= c && c <= '9' {
            d = (c as u32) - 48;
        } else if 'a' <= c && c <= 'f' {
            d = (c as u32) - 97 + 10;
        } else if 'A' <= c && c <= 'F' {
            d = (c as u32) - 65 + 10;
        } else {
            assert(!is_hex_digit(v@[k as int]));
            return None;
        }
        let ghost pre = v@.subrange(0, k as int);
        let ghost cur = v@.subrange(0, k as int + 1);
        proof {
            assert(cur.drop_last() =~= pre);
            assert(cur.last() == v@[k as int]);
            assert(is_hex_digit(cur.last()));
            assert forall|x: int| 0 <= x < cur.len() implies is_hex_digit(#[trigger] cur[x]) by {
                if x < pre.len() {
                    assert(cur[x] == pre[x]);
                } else {
                    assert(cur[x] == cur.last());
                }
            }
            assert(d == hex_digit_val(cur.last()));
            lemma_hex_val_bound(cur);
            assert(pow16(0) == 1);
            assert(pow16(1) == 16);
            assert(pow16(2) == 256);
            assert(pow16(3) == 4096);
            assert(pow16(4) == 65536);
        }
        acc = acc * 16 + d;
        k += 1;
    }
    assert(v@.subrange(0, k as int) =~= v@);
    Some(acc as u16)
}

/// The hexadecimal group values of the parts in positions `from .. to`.
fn parse_h16_run(parts: &Vec<Vec<char>>, from: usize, to: usize) -> (r: Option<Vec<u16>>)
    requires
        from <= to <= parts@.len(),
    ensures
        match r {
            Some(g) => all_h16(names_view(*parts).subrange(from as int, to as int)) && g@
                == h16_vals(names_view(*parts).subrange(from as int, to as int)),
            None => !all_h16(names_view(*parts).subrange(from as int, to as int)),
        },
{
    let ghost ps = names_view(*parts).subrange(from as int, to as int);
    let mut out: Vec<u16> = Vec::new();
    let mut k: usize = from;
    while k < to
        invariant
            from <= k <= to <= parts@.len(),
            ps == names_view(*parts).subrange(from as int, to as int),
            all_h16(ps.subrange(0, (k - from) as int)),
            out@ == h16_vals(ps.subrange(0, (k - from) as int)),
        decreases to - k,
    {
        match parse_h16(&parts[k]) {
            Some(n) => {
                out.push(n);
                proof {
                    assert(ps[(k - from) as int] == parts@[k as int]@);
                    assert(ps.subrange(0, (k - from) as int + 1).drop_last() =~= ps.subrange(
                        0,
                        (k - from) as int,
                    ));
                    assert forall|x: int|
                        0 <= x < (k - from) as int + 1 implies is_h16(
                        #[trigger] ps.subrange(0, (k - from) as int + 1)[x],
                    ) by {
                        if x < (k - from) as int {
                            assert(ps.subrange(0, (k - from) as int + 1)[x] == ps.subrange(
                                0,
                                (k - from) as int,
                            )[x]);
                        } else {
                            assert(ps.subrange(0, (k - from) as int + 1)[x] == ps[(k
                                - from) as int]);
                        }
                    }
                    assert(out@ =~= h16_vals(ps.subrange(0, (k - from) as int + 1)));
                }
                k += 1;
            },
            None => {
                assert(!is_h16(ps[(k - from) as int]));
                return None;
            },
        }
    }
    assert(ps.subrange(0, (k - from) as int) =~= ps);
    Some(out)
}

fn push_zeros(out: &mut Vec<u16>, n: usize)
    ensures
        final(out)@ == old(out)@ + zeros16(n as nat),
{
    let mut k: usize = 0;
    while k < n
        invariant
            k <= n,
            out@ == old(out)@ + zeros16(k as nat),
        decreases n - k,
    {
        out.push(0);
        assert(out@ =~= old(out)@ + zeros16(k as nat + 1));
        k += 1;
    }
}

fn append_all(out: &mut Vec<u16>, other: &Vec<u16>)
    ensures
        final(out)@ == old(out)@ + other@,
{
    let mut k: usize = 0;
    while k < other.len()
        invariant
            k <= other@.len(),
            out@ == old(out)@ + other@.subrange(0, k as int),
        decreases other@.len() - k,
    {
        out.push(other[k]);
        assert(out@ =~= old(out)@ + other@.subrange(0, k as int + 1));
        k += 1;
    }
    assert(other@.subrange(0, k as int) =~= other@);
}

fn find_empty_exec(parts: &Vec<Vec<char>>, k: usize) -> (r: usize)
    requires
        k <= parts@.len(),
    ensures
        r == find_empty(names_view(*parts), k as int),
        k <= r <= parts@.len(),
{
    let mut j = k;
    while j < parts.len()
        invariant
            k <= j <= parts@.len(),
            find_empty(names_view(*parts), k as int) == find_empty(names_view(*parts), j as int),
        decreases parts@.len() - j,
    {
        if parts[j].len() == 0 {
            assert(names_view(*parts)[j as int].len() == 0);
            return j;
        }
        assert(names_view(*parts)[j as int].len() != 0);
        j += 1;
    }
    j
}

fn find_empty_upto(parts: &Vec<Vec<char>>, k: usize, to: usize) -> (r: usize)
    requires
        k <= to <= parts@.len(),
    ensures
        r == find_empty(names_view(*parts).subrange(0, to as int), k as int),
        k <= r <= to,
{
    let ghost sub = names_view(*parts).subrange(0, to as int);
    let mut j = k;
    while j < to
        invariant
            k <= j <= to <= parts@.len(),
            sub == names_view(*parts).subrange(0, to as int),
            find_empty(sub, k as int) == find_empty(sub, j as int),
        decreases to - j,
    {
        if parts[j].len() == 0 {
            assert(sub[j as int].len() == 0);
            return j;
        }
        assert(sub[j as int].len() != 0);
        j += 1;
    }
    j
}

/// Parses an IPv6 literal into its eight 16-bit groups. The last part may be
/// an embedded IPv4 literal standing for the final two groups.
pub fn parse_ipv6_chars(v: &Vec<char>) -> (r: Option<Vec<u16>>)
    ensures
        match r {
            Some(g) => ipv6_spec(v@) == Some(g@) && g@.len() == 8,
            None => ipv6_spec(v@) is None,
        },
{
    let parts = split_chars(v, ':');
    let ghost ps = split_on(v@, ':');
    let n = parts.len();
    proof {
        assert(names_view(parts).len() == parts@.len());
        assert(ps.len() >= 1);
    }
    if let Some(o) = parse_ipv4_chars(&parts[n - 1]) {
        let m = n - 1;
        let hi: u16 = (o.0 as u16) * 256 + (o.1 as u16);
        let lo: u16 = (o.2 as u16) * 256 + (o.3 as u16);
        let ghost hex = ps.subrange(0, m as int);
        let ghost v4g = v4_tail_groups(o);
        proof {
            assert(v4g =~= seq![hi, lo]);
            assert(hex =~= names_view(parts).subrange(0, m as int));
        }
        if m == 6 {
            match parse_h16_run(&parts, 0, 6) {
                Some(vals) => {
                    let mut g = vals;
                    g.push(hi);
                    g.push(lo);
                    assert(g@ =~= h16_vals(hex) + v4g);
                    return Some(g);
                },
                None => {
                },
            }
        }
        if m >= 2 && parts[0].len() == 0 && parts[1].len() == 0 {
            let ghost tail = hex.skip(2);
            assert(tail =~= names_view(parts).subrange(2, m as int));
            match parse_h16_run(&parts, 2, m) {
                Some(vals) => {
                    if m - 2 <= 5 {
                        let mut g: Vec<u16> = Vec::new();
                        push_zeros(&mut g, 6 - (m - 2));
                        append_all(&mut g, &vals);
                        g.push(hi);
                        g.push(lo);
                        assert(g@ =~= zeros16((6 - tail.len()) as nat) + h16_vals(tail) + v4g);
                        return Some(g);
                    } else {
                        return None;
                    }
                },
                None => {
                    return None;
                },
            }
        }
        let e = find_empty_upto(&parts, 0, m);
        if 0 < e && e < m {
            let e2 = find_empty_upto(&parts, e + 1, m);
            if e2 == m {
                let ghost head = hex.take(e as int);
                let ghost tailh = hex.skip(e as int + 1);
                proof {
                    assert(head =~= names_view(parts).subrange(0, e as int));
                    assert(tailh =~= names_view(parts).subrange(e as int + 1, m as int));
                }
                let hv = match parse_h16_run(&parts, 0, e) {
                    Some(x) => x,
                    None => {
                        return None;
                    },
                };
                let tv = match parse_h16_run(&parts, e + 1, m) {
                    Some(x) => x,
                    None => {
                        return None;
                    },
                };
                if e + (m - e - 1) <= 5 {
                    let mut g: Vec<u16> = Vec::new();
                    append_all(&mut g, &hv);
                    push_zeros(&mut g, 6 - e - (m - e - 1));
                    append_all(&mut g, &tv);
                    g.push(hi);
                    g.push(lo);
                    assert(g@ =~= h16_vals(head) + zeros16(
                        (6 - head.len() - tailh.len()) as nat,
                    ) + h16_vals(tailh) + v4g);
                    return Some(g);
                } else {
                    return None;
                }
            } else {
                return None;
            }
        }
        return None;
    }
    if n == 3 && parts[0].len() == 0 && parts[1].len() == 0 && parts[2].len() == 0 {
        let mut g: Vec<u16> = Vec::new();
        push_zeros(&mut g, 8);
        assert(g@ =~= zeros16(8));
        return Some(g);
    }
    if n >= 3 && parts[0].len() == 0 && parts[1].len() == 0 {
        let ghost tail = ps.skip(2);
        assert(tail =~= names_view(parts).subrange(2, n as int));
        match parse_h16_run(&parts, 2, n) {
            Some(vals) => {
                if n - 2 <= 7 {
                    let mut g: Vec<u16> = Vec::new();
                    push_zeros(&mut g, 8 - (n - 2));
                    append_all(&mut g, &vals);
                    assert(g@ =~= zeros16((8 - tail.len()) as nat) + h16_vals(tail));
                    return Some(g);
                } else {
                    return None;
                }
            },
            None => {
                return None;
            },
        }
    }
    if n >= 3 && parts[n - 1].len() == 0 && parts[n - 2].len() == 0 {
        let ghost head = ps.take(n as int - 2);
        assert(head =~= names_view(parts).subrange(0, n as int - 2));
        match parse_h16_run(&parts, 0, n - 2) {
            Some(vals) => {
                if n - 2 <= 7 {
                    let mut g: Vec<u16> = Vec::new();
                    append_all(&mut g, &vals);
                    push_zeros(&mut g, 8 - (n - 2));
                    assert(g@ =~= h16_vals(head) + zeros16((8 - head.len()) as nat));
                    return Some(g);
                } else {
                    return None;
                }
            },
            None => {
                return None;
            },
        }
    }
    let e = find_empty_exec(&parts, 0);
    if e == n {
        if n == 8 {
            match parse_h16_run(&parts, 0, 8) {
                Some(vals) => {
                    assert(names_view(parts).subrange(0, 8) =~= ps);
                    return Some(vals);
                },
                None => {
                    assert(names_view(parts).subrange(0, 8) =~= ps);
                    return None;
                },
            }
        } else {
            return None;
        }
    }
    if 0 < e && e < n - 1 {
        let e2 = find_empty_exec(&parts, e + 1);
        if e2 == n {
            let ghost head = ps.take(e as int);
            let ghost tail = ps.skip(e as int + 1);
            assert(head =~= names_view(parts).subrange(0, e as int));
            assert(tail =~= names_view(parts).subrange(e as int + 1, n as int));
            let hv = match parse_h16_run(&parts, 0, e) {
                Some(x) => x,
                None => {
                    return None;
                },
            };
            let tv = match parse_h16_run(&parts, e + 1, n) {
                Some(x) => x,
                None => {
                    return None;
                },
            };
            if e + (n - e - 1) <= 7 {
                let mut g: Vec<u16> = Vec::new();
                append_all(&mut g, &hv);
                push_zeros(&mut g, 8 - e - (n - e - 1));
                append_all(&mut g, &tv);
                assert(g@ =~= h16_vals(head) + zeros16((8 - head.len() - tail.len()) as nat)
                    + h16_vals(tail));
                return Some(g);
            } else {
                return None;
            }
        } else {
            return None;
        }
    }
    None
}

} // verus!
