//! SQL `LIKE` patterns: `%` stands for any run of characters, `_` for any
//! one character, and ASCII letters match either case.

use vstd::prelude::*;

verus! {

pub open spec fn is_upper(c: char) -> bool {
    'A' <= c && c <= 'Z'
}

/// Two characters are equal up to the case of ASCII letters.
pub open spec fn same_letter(a: char, b: char) -> bool {
    a == b || (is_upper(a) && (a as u32) + 32 == (b as u32)) || (is_upper(b) && (b as u32) + 32
        == (a as u32))
}

/// The pattern from position `i` on matches the text from position `j` on.
pub open spec fn like_at(p: Seq<char>, t: Seq<char>, i: int, j: int) -> bool
    decreases (p.len() - i) + (t.len() - j) when 0 <= i <= p.len() && 0 <= j <= t.len()
{
    if i == p.len() {
        j == t.len()
    } else if p[i] == '%' {
        like_at(p, t, i + 1, j) || (j < t.len() && like_at(p, t, i, j + 1))
    } else if j == t.len() {
        false
    } else if p[i] == '_' || same_letter(p[i], t[j]) {
        like_at(p, t, i + 1, j + 1)
    } else {
        false
    }
}

/// The whole text matches the whole pattern.
pub open spec fn like(p: Seq<char>, t: Seq<char>) -> bool {
    like_at(p, t, 0, 0)
}

fn letters_match(a: char, b: char) -> (r: bool)
    ensures
        r == same_letter(a, b),
{
    let x = a as u32;
    let y = b as u32;
    a == b || ('A' <= a && a <= 'Z' && x + 32 == y) || ('A' <= b && b <= 'Z' && y + 32 == x)
}

/// Whether the text matches the pattern.
pub fn matches_like(pattern: &String, text: &String) -> (r: bool)
    ensures
        r == like(pattern@, text@),
{
    let p = pattern.as_str();
    let t = text.as_str();
    let pl = p.unicode_len();
    let tl = t.unicode_len();
    let ghost ps = pattern@;
    let ghost ts = text@;
    // `next[j]` (and `next_end` for the end of the text) tells whether the
    // pattern from position `i` matches the text from position `j`.
    let mut next: Vec<bool> = Vec::new();
    let mut next_end = true;
    let mut k: usize = 0;
    while k < tl
        invariant
            pl == ps.len(),
            tl == ts.len(),
            k <= tl,
            next@.len() == k,
            forall|q: int| 0 <= q < k ==> next@[q] == like_at(ps, ts, pl as int, q),
        decreases tl - k,
    {
        next.push(false);
        k = k + 1;
    }
    let mut i: usize = pl;
    while i > 0
        invariant
            pl == ps.len(),
            tl == ts.len(),
            i <= pl,
            next@.len() == tl,
            forall|q: int| 0 <= q < tl ==> next@[q] == like_at(ps, ts, i as int, q),
            next_end == like_at(ps, ts, i as int, tl as int),
            p@ == ps,
            t@ == ts,
        decreases i,
    {
        let c = p.get_char(i - 1);
        let cur_end = c == '%' && next_end;
        let mut cur: Vec<bool> = Vec::new();
        let mut z: usize = 0;
        while z < tl
            invariant
                z <= tl,
                cur@.len() == z,
            decreases tl - z,
        {
            cur.push(false);
            z = z + 1;
        }
        let mut j: usize = tl;
        while j > 0
            invariant
                pl == ps.len(),
                tl == ts.len(),
                0 < i <= pl,
                c == ps[i - 1],
                j <= tl,
                next@.len() == tl,
                cur@.len() == tl,
                forall|q: int| 0 <= q < tl ==> next@[q] == like_at(ps, ts, i as int, q),
                next_end == like_at(ps, ts, i as int, tl as int),
                cur_end == like_at(ps, ts, i - 1, tl as int),
                forall|q: int| j <= q < tl ==> cur@[q] == like_at(ps, ts, i - 1, q),
                t@ == ts,
            decreases j,
        {
            let q = j - 1;
            let after_cur = if q + 1 < tl {
                cur[q + 1]
            } else {
                cur_end
            };
            let after_next = if q + 1 < tl {
                next[q + 1]
            } else {
                next_end
            };
            let v = if c == '%' {
                next[q] || after_cur
            } else {
                let d = t.get_char(q);
                (c == '_' || letters_match(c, d)) && after_next
            };
            cur.set(q, v);
            j = q;
        }
        next = cur;
        next_end = cur_end;
        i = i - 1;
    }
    if tl == 0 {
        next_end
    } else {
        next[0]
    }
}

} // verus!
