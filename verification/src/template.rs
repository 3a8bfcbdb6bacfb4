use vstd::prelude::*;
use crate::text::{copy_range, names_view};

verus! {

// ---------------------------------------------------------------------------
// The `${NAME}` template grammar: scanning for variable references and
// substituting their values. A reference is `${`, one or more characters
// other than `}`, then `}`; matches are leftmost and non-overlapping.
// ---------------------------------------------------------------------------

/// The text of a variable reference for `name`.
pub open spec fn var_token(name: Seq<char>) -> Seq<char> {
    seq!['$', '{'] + name + seq!['}']
}

/// Position of the first '}' at or after `k`, or the length when none exists.
pub open spec fn find_close(s: Seq<char>, k: int) -> int
    decreases s.len() - k,
    when 0 <= k <= s.len()
{
    if k >= s.len() {
        s.len() as int
    } else if s[k] == '}' {
        k
    } else {
        find_close(s, k + 1)
    }
}

/// The names captured by variable references at or after position `i`,
/// in order, duplicates included.
pub open spec fn captures_from(s: Seq<char>, i: int) -> Seq<Seq<char>>
    decreases s.len() - i,
    when 0 <= i <= s.len()
{
    if i >= s.len() {
        Seq::empty()
    } else if i + 1 < s.len() && s[i] == '$' && s[i + 1] == '{' && find_close(s, i + 2)
        < s.len() && find_close(s, i + 2) > i + 2 {
        let j = find_close(s, i + 2);
        seq![s.subrange(i + 2, j)] + captures_from(s, j + 1)
    } else {
        captures_from(s, i + 1)
    }
}

/// All names captured in `s`, in order, duplicates included.
pub open spec fn captures(s: Seq<char>) -> Seq<Seq<char>> {
    captures_from(s, 0)
}

/// The elements of `s` with later duplicates dropped: each element keeps
/// its first position.
pub open spec fn dedup_first(s: Seq<Seq<char>>) -> Seq<Seq<char>>
    decreases s.len(),
{
    if s.len() == 0 {
        s
    } else {
        let d = dedup_first(s.drop_last());
        if d.contains(s.last()) {
            d
        } else {
            d.push(s.last())
        }
    }
}

/// The distinct names captured in `s`, in order of first capture.
pub open spec fn capture_names(s: Seq<char>) -> Seq<Seq<char>> {
    dedup_first(captures(s))
}

/// Whether `s` begins with `p`.
pub open spec fn starts_with(s: Seq<char>, p: Seq<char>) -> bool {
    p.len() <= s.len() && s.subrange(0, p.len() as int) == p
}

/// `s` with every leftmost, non-overlapping occurrence of `pat` replaced by
/// `rep` — the behaviour of `str::replace`.
pub open spec fn subst(s: Seq<char>, pat: Seq<char>, rep: Seq<char>) -> Seq<char>
    decreases s.len(),
    when pat.len() > 0
{
    if s.len() == 0 {
        s
    } else if starts_with(s, pat) {
        rep + subst(s.skip(pat.len() as int), pat, rep)
    } else {
        seq![s[0]] + subst(s.skip(1), pat, rep)
    }
}

// ---------------------------------------------------------------------------
// Executable scanning.
// ---------------------------------------------------------------------------

fn find_close_exec(s: &Vec<char>, k: usize) -> (r: usize)
    requires
        k <= s@.len(),
    ensures
        r == find_close(s@, k as int),
{
    let mut j = k;
    while j < s.len()
        invariant
            k <= j <= s@.len(),
            find_close(s@, k as int) == find_close(s@, j as int),
        decreases s@.len() - j,
    {
        if s[j] == '}' {
            return j;
        }
        j += 1;
    }
    j
}

fn chars_eq(a: &Vec<char>, b: &Vec<char>) -> (r: bool)
    ensures
        r == (a@ == b@),
{
    if a.len() != b.len() {
        assert(a@ != b@);
        return false;
    }
    let mut i: usize = 0;
    while i < a.len()
        invariant
            i <= a@.len(),
            a@.len() == b@.len(),
            forall|k: int| 0 <= k < i ==> a@[k] == b@[k],
        decreases a@.len() - i,
    {
        if a[i] != b[i] {
            return false;
        }
        i += 1;
    }
    assert(a@ =~= b@);
    true
}

proof fn lemma_deep_view_push(v: Vec<Vec<char>>, x: Vec<char>)
    ensures
        v@.push(x).map_values(|e: Vec<char>| e@) =~= v@.map_values(|e: Vec<char>| e@).push(
            x@,
        ),
{
}

/// All names captured in `s`, in order, duplicates included.
pub fn scan_captures(s: &Vec<char>) -> (r: Vec<Vec<char>>)
    ensures
        names_view(r) == captures(s@),
{
    let mut out: Vec<Vec<char>> = Vec::new();
    let mut i: usize = 0;
    while i < s.len()
        invariant
            i <= s@.len(),
            names_view(out) + captures_from(s@, i as int) == captures(s@),
        decreases s@.len() - i,
    {
        let ghost i0 = i as int;
        let mut matched = false;
        if i + 1 < s.len() {
            if s[i] == '$' && s[i + 1] == '{' {
                let j = find_close_exec(s, i + 2);
                if j < s.len() && j > i + 2 {
                    let name = copy_range(s, i + 2, j);
                    proof {
                        assert(captures_from(s@, i0) == seq![s@.subrange(i0 + 2, j as int)]
                            + captures_from(s@, j as int + 1));
                        lemma_deep_view_push(out, name);
                        assert(names_view(out).push(name@) + captures_from(s@, j as int + 1)
                            =~= names_view(out) + captures_from(s@, i0));
                    }
                    out.push(name);
                    i = j + 1;
                    matched = true;
                }
            }
        }
        if !matched {
            assert(captures_from(s@, i0) == captures_from(s@, i0 + 1));
            i += 1;
        }
    }
    proof {
        assert(captures_from(s@, s@.len() as int) =~= Seq::<Seq<char>>::empty());
        assert(names_view(out) + captures_from(s@, i as int) =~= names_view(out));
    }
    out
}

fn contains_name(v: &Vec<Vec<char>>, x: &Vec<char>) -> (r: bool)
    ensures
        r == names_view(*v).contains(x@),
{
    let mut i: usize = 0;
    while i < v.len()
        invariant
            i <= v@.len(),
            forall|k: int| 0 <= k < i ==> names_view(*v)[k] != x@,
        decreases v@.len() - i,
    {
        if chars_eq(&v[i], x) {
            assert(names_view(*v)[i as int] == x@);
            return true;
        }
        i += 1;
    }
    assert(!names_view(*v).contains(x@));
    false
}

/// The distinct elements of `caps`, each kept at its first position.
pub fn dedup_names(caps: &Vec<Vec<char>>) -> (r: Vec<Vec<char>>)
    ensures
        names_view(r) == dedup_first(names_view(*caps)),
{
    let mut out: Vec<Vec<char>> = Vec::new();
    let mut k: usize = 0;
    while k < caps.len()
        invariant
            k <= caps@.len(),
            names_view(out) == dedup_first(names_view(*caps).subrange(0, k as int)),
        decreases caps@.len() - k,
    {
        let ghost pre = names_view(*caps).subrange(0, k as int);
        let ghost cur = names_view(*caps).subrange(0, k as int + 1);
        proof {
            assert(cur.drop_last() =~= pre);
            assert(cur.last() == names_view(*caps)[k as int]);
        }
        if !contains_name(&out, &caps[k]) {
            let item = copy_range(&caps[k], 0, caps[k].len());
            proof {
                assert(item@ =~= caps[k as int]@);
                lemma_deep_view_push(out, item);
            }
            out.push(item);
        }
        k += 1;
    }
    assert(names_view(*caps).subrange(0, k as int) =~= names_view(*caps));
    out
}

/// The literal `${name}` reference text for a variable name.
pub fn build_token(name: &Vec<char>) -> (r: Vec<char>)
    ensures
        r@ == var_token(name@),
        r@.len() > 0,
{
    let mut out: Vec<char> = Vec::new();
    out.push('$');
    out.push('{');
    assert(out@ =~= seq!['$', '{'] + name@.subrange(0, 0));
    let mut i: usize = 0;
    while i < name.len()
        invariant
            i <= name@.len(),
            out@ == seq!['$', '{'] + name@.subrange(0, i as int),
        decreases name@.len() - i,
    {
        out.push(name[i]);
        assert(out@ =~= seq!['$', '{'] + name@.subrange(0, i as int + 1));
        i += 1;
    }
    assert(name@.subrange(0, i as int) =~= name@);
    out.push('}');
    assert(out@ =~= var_token(name@));
    out
}

// ---------------------------------------------------------------------------
// Executable substitution.
// ---------------------------------------------------------------------------

fn matches_at(s: &Vec<char>, pat: &Vec<char>, i: usize) -> (r: bool)
    requires
        i <= s@.len(),
    ensures
        r == starts_with(s@.skip(i as int), pat@),
{
    if pat.len() > s.len() - i {
        return false;
    }
    let sl = s.len();
    let mut k: usize = 0;
    while k < pat.len()
        invariant
            sl == s@.len(),
            i <= s@.len(),
            k <= pat@.len(),
            pat@.len() <= s@.len() - i,
            forall|x: int| 0 <= x < k ==> s@[i + x] == pat@[x],
        decreases pat@.len() - k,
    {
        if s[i + k] != pat[k] {
            assert(s@.skip(i as int).subrange(0, pat@.len() as int)[k as int] != pat@[k as int]);
            return false;
        }
        k += 1;
    }
    proof {
        assert(s@.skip(i as int).subrange(0, pat@.len() as int) =~= pat@);
    }
    true
}

proof fn lemma_subst_match(s: Seq<char>, pat: Seq<char>, rep: Seq<char>, i: int)
    requires
        0 <= i <= s.len(),
        pat.len() > 0,
        starts_with(s.skip(i), pat),
    ensures
        subst(s.skip(i), pat, rep) == rep + subst(s.skip(i + pat.len()), pat, rep),
{
    assert(s.skip(i).skip(pat.len() as int) =~= s.skip(i + pat.len()));
}

proof fn lemma_subst_nomatch(s: Seq<char>, pat: Seq<char>, rep: Seq<char>, i: int)
    requires
        0 <= i < s.len(),
        pat.len() > 0,
        !starts_with(s.skip(i), pat),
    ensures
        subst(s.skip(i), pat, rep) == seq![s[i]] + subst(s.skip(i + 1), pat, rep),
{
    assert(s.skip(i)[0] == s[i]);
    assert(s.skip(i).skip(1) =~= s.skip(i + 1));
}

/// `s` with every leftmost, non-overlapping occurrence of `pat` replaced by
/// `rep`, exactly as `str::replace` does.
pub fn subst_chars(s: &Vec<char>, pat: &Vec<char>, rep: &Vec<char>) -> (r: Vec<char>)
    requires
        pat@.len() > 0,
    ensures
        r@ == subst(s@, pat@, rep@),
{
    let mut out: Vec<char> = Vec::new();
    let mut i: usize = 0;
    proof {
        assert(s@.skip(0) =~= s@);
        assert(Seq::<char>::empty() + subst(s@, pat@, rep@) =~= subst(s@, pat@, rep@));
    }
    while i < s.len()
        invariant
            i <= s@.len(),
            pat@.len() > 0,
            subst(s@, pat@, rep@) == out@ + subst(s@.skip(i as int), pat@, rep@),
        decreases s@.len() - i,
    {
        let ghost i0 = i as int;
        if matches_at(s, pat, i) {
            proof {
                lemma_subst_match(s@, pat@, rep@, i0);
            }
            let ghost out0 = out@;
            let mut k: usize = 0;
            while k < rep.len()
                invariant
                    k <= rep@.len(),
                    out@ == out0 + rep@.subrange(0, k as int),
                decreases rep@.len() - k,
            {
                out.push(rep[k]);
                assert(out@ =~= out0 + rep@.subrange(0, k as int + 1));
                k += 1;
            }
            assert(out@ =~= out0 + rep@);
            i += pat.len();
            assert(out@ + subst(s@.skip(i as int), pat@, rep@) =~= subst(s@, pat@, rep@));
        } else {
            proof {
                lemma_subst_nomatch(s@, pat@, rep@, i0);
            }
            out.push(s[i]);
            i += 1;
            assert(out@ + subst(s@.skip(i as int), pat@, rep@) =~= subst(s@, pat@, rep@));
        }
    }
    proof {
        assert(s@.skip(s@.len() as int) =~= Seq::<char>::empty());
        assert(out@ + subst(s@.skip(i as int), pat@, rep@) =~= out@);
    }
    out
}

} // verus!
