use vstd::prelude::*;
use vstd::std_specs::iter::IteratorSpec;

verus! {

/// SQL `LIKE`: `%` matches any run of characters, `_` matches one
/// character, a backslash makes the next character literal, and any other
/// character matches itself. The pattern must cover the whole text.
pub open spec fn like(t: Seq<char>, p: Seq<char>) -> bool
    decreases t.len() + p.len(),
{
    if p.len() == 0 {
        t.len() == 0
    } else if p[0] == '%' {
        like(t, p.drop_first()) || (t.len() > 0 && like(t.drop_first(), p))
    } else if p[0] == '_' {
        t.len() > 0 && like(t.drop_first(), p.drop_first())
    } else if p[0] == '\\' && p.len() >= 2 {
        t.len() > 0 && t[0] == p[1] && like(t.drop_first(), p.subrange(2, p.len() as int))
    } else {
        t.len() > 0 && t[0] == p[0] && like(t.drop_first(), p.drop_first())
    }
}

/// Whether the suffix of `t` from `i` matches the suffix of `p` from `j`.
pub open spec fn like_from(t: Seq<char>, p: Seq<char>, i: int, j: int) -> bool {
    like(t.subrange(i, t.len() as int), p.subrange(j, p.len() as int))
}

/// The characters of a string.
pub fn chars_of(s: &str) -> (r: Vec<char>)
    ensures
        r@ == s@,
{
    broadcast use vstd::string::axiom_spec_iter, vstd::string::next_postcondition;

    let mut it = s.chars();
    let mut out: Vec<char> = Vec::new();
    loop
        invariant
            out@ + it.remaining() == s@,
            it.decrease() is Some,
        decreases it.decrease()->0,
    {
        let ghost before = it.remaining();
        match it.next() {
            Some(c) => {
                out.push(c);
                assert(out@ + it.remaining() =~= s@);
            },
            None => {
                assert(out@ =~= s@);
                return out;
            },
        }
    }
}

proof fn lemma_like_step(t: Seq<char>, p: Seq<char>, i: int, j: int)
    requires
        0 <= i <= t.len(),
        0 <= j <= p.len(),
    ensures
        like_from(t, p, i, j) == if j == p.len() {
            i == t.len()
        } else if p[j] == '%' {
            like_from(t, p, i, j + 1) || (i < t.len() && like_from(t, p, i + 1, j))
        } else if p[j] == '_' {
            i < t.len() && like_from(t, p, i + 1, j + 1)
        } else if p[j] == '\\' && j + 1 < p.len() {
            i < t.len() && t[i] == p[j + 1] && like_from(t, p, i + 1, j + 2)
        } else {
            i < t.len() && t[i] == p[j] && like_from(t, p, i + 1, j + 1)
        },
{
    let ts = t.subrange(i, t.len() as int);
    let ps = p.subrange(j, p.len() as int);
    if i < t.len() {
        assert(ts.drop_first() =~= t.subrange(i + 1, t.len() as int));
        assert(ts[0] == t[i]);
    }
    if j < p.len() {
        assert(ps.drop_first() =~= p.subrange(j + 1, p.len() as int));
        assert(ps[0] == p[j]);
        if j + 1 < p.len() {
            assert(ps[1] == p[j + 1]);
            assert(ps.subrange(2, ps.len() as int) =~= p.subrange(j + 2, p.len() as int));
        }
    }
}

fn falses(len: usize) -> (r: Vec<bool>)
    ensures
        r@.len() == len,
{
    let mut r: Vec<bool> = Vec::new();
    let mut q: usize = 0;
    while q < len
        invariant
            q <= len,
            r@.len() == q,
        decreases len - q,
    {
        r.push(false);
        q += 1;
    }
    r
}

/// Whether text `t` matches the `LIKE` pattern `p`. Runs in time
/// proportional to the product of their lengths.
pub fn like_match(t: &Vec<char>, p: &Vec<char>) -> (r: bool)
    ensures
        r == like(t@, p@),
{
    let n = t.len();
    let m = p.len();
    // `next[j]` holds whether the text from `i` matches the pattern from `j`,
    // for `j < m`; the empty pattern suffix matches only the empty text.
    let mut next = falses(m);
    let mut k: usize = m;
    while k > 0
        invariant
            k <= m,
            m == p@.len(),
            n == t@.len(),
            next@.len() == m,
            forall|q: int| k <= q < m ==> next@[q] == like_from(t@, p@, n as int, q),
        decreases k,
    {
        k -= 1;
        proof {
            lemma_like_step(t@, p@, n as int, k as int);
            lemma_like_step(t@, p@, n as int, m as int);
        }
        let v = if p[k] == '%' {
            if k + 1 < m {
                next[k + 1]
            } else {
                true
            }
        } else {
            false
        };
        next.set(k, v);
    }
    let mut i: usize = n;
    while i > 0
        invariant
            i <= n,
            m == p@.len(),
            n == t@.len(),
            next@.len() == m,
            forall|q: int| 0 <= q < m ==> next@[q] == like_from(t@, p@, i as int, q),
        decreases i,
    {
        i -= 1;
        let mut cur = falses(m);
        let mut jj: usize = m;
        while jj > 0
            invariant
                i < n,
                jj <= m,
                m == p@.len(),
                n == t@.len(),
                next@.len() == m,
                cur@.len() == m,
                forall|q: int| 0 <= q < m ==> next@[q] == like_from(t@, p@, i + 1, q),
                forall|q: int| jj <= q < m ==> cur@[q] == like_from(t@, p@, i as int, q),
            decreases jj,
        {
            jj -= 1;
            proof {
                lemma_like_step(t@, p@, i as int, jj as int);
                lemma_like_step(t@, p@, i + 1, m as int);
                lemma_like_step(t@, p@, i as int, m as int);
            }
            let rest_here = if jj + 1 < m {
                cur[jj + 1]
            } else {
                false
            };
            let rest_next = if jj + 1 < m {
                next[jj + 1]
            } else {
                i + 1 == n
            };
            let v = if p[jj] == '%' {
                rest_here || next[jj]
            } else if p[jj] == '_' {
                rest_next
            } else if p[jj] == '\\' && jj + 1 < m {
                let after = if jj + 2 < m {
                    next[jj + 2]
                } else {
                    i + 1 == n
                };
                t[i] == p[jj + 1] && after
            } else {
                t[i] == p[jj] && rest_next
            };
            cur.set(jj, v);
        }
        next = cur;
    }
    proof {
        lemma_like_step(t@, p@, 0, m as int);
    }
    assert(t@.subrange(0, n as int) =~= t@);
    assert(p@.subrange(0, m as int) =~= p@);
    if m == 0 {
        n == 0
    } else {
        next[0]
    }
}

/// Whether the text matches the `LIKE` pattern.
pub fn text_like(t: &str, p: &str) -> (r: bool)
    ensures
        r == like(t@, p@),
{
    let tc = chars_of(t);
    let pc = chars_of(p);
    like_match(&tc, &pc)
}

} // verus!
