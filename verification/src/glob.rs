//! Glob patterns for player names: `*` stands for any run of characters,
//! every other character for itself, and a pattern must cover the whole name.
use vstd::prelude::*;
use vstd::string::*;

verus! {

/// Whether `p` from index `i` on matches `s` from index `j` on.
pub open spec fn glob_from(p: Seq<char>, s: Seq<char>, i: int, j: int) -> bool
    decreases p.len() - i, s.len() - j,
{
    if i >= p.len() {
        j >= s.len()
    } else if p[i] == '*' {
        glob_from(p, s, i + 1, j) || (j < s.len() && glob_from(p, s, i, j + 1))
    } else {
        j < s.len() && p[i] == s[j] && glob_from(p, s, i + 1, j + 1)
    }
}

/// Whether the whole of `name` matches the whole of `pattern`.
pub open spec fn glob_match(pattern: Seq<char>, name: Seq<char>) -> bool {
    glob_from(pattern, name, 0, 0)
}

pub open spec fn has_star(p: Seq<char>) -> bool {
    exists|k: int| 0 <= k < p.len() && p[k] == '*'
}

/// The characters of `s`, one per element.
pub fn chars_of(s: &str) -> (v: Vec<char>)
    ensures
        v@ == s@,
{
    let n = s.unicode_len();
    let mut v: Vec<char> = Vec::new();
    let mut k: usize = 0;
    while k < n
        invariant
            n == s@.len(),
            k <= n,
            v@ == s@.subrange(0, k as int),
        decreases n - k,
    {
        let c = s.get_char(k);
        v.push(c);
        k = k + 1;
        assert(v@ =~= s@.subrange(0, k as int));
    }
    assert(v@ =~= s@);
    v
}

/// Whether the whole of `name` matches the whole of `pattern`.
pub fn glob_matches(pattern: &str, name: &str) -> (b: bool)
    ensures
        b == glob_match(pattern@, name@),
{
    let p = chars_of(pattern);
    let s = chars_of(name);
    let m = p.len();
    let n = s.len();
    // `next[j]` tells whether the pattern from row `i` on matches the name from `j` on.
    let mut next: Vec<bool> = Vec::new();
    let mut j: usize = 0;
    while j < n
        invariant
            m == p@.len(),
            n == s@.len(),
            j <= n,
            next@.len() == j,
            forall|k: int| 0 <= k < j ==> next@[k] == glob_from(p@, s@, m as int, k),
        decreases n - j,
    {
        next.push(false);
        j = j + 1;
    }
    next.push(true);
    let mut i: usize = m;
    while i > 0
        invariant
            m == p@.len(),
            n == s@.len(),
            i <= m,
            next@.len() == n + 1,
            forall|k: int| 0 <= k <= n ==> next@[k] == glob_from(p@, s@, i as int, k),
        decreases i,
    {
        let row = i - 1;
        let pc = p[row];
        let mut cur: Vec<bool> = Vec::new();
        let mut k: usize = 0;
        while k < n
            invariant
                k <= n,
                cur@.len() == k,
            decreases n - k,
        {
            cur.push(false);
            k = k + 1;
        }
        cur.push(false);
        assert(cur@[n as int] == false);
        if pc == '*' {
            let last = next[n];
            cur.set(n, last);
            let mut jj: usize = n;
            while jj > 0
                invariant
                    m == p@.len(),
                    n == s@.len(),
                    row < m,
                    p@[row as int] == '*',
                    jj <= n,
                    cur@.len() == n + 1,
                    next@.len() == n + 1,
                    forall|k: int| 0 <= k <= n ==> next@[k] == glob_from(p@, s@, row + 1, k),
                    forall|k: int| jj <= k <= n ==> cur@[k] == glob_from(p@, s@, row as int, k),
                decreases jj,
            {
                let col = jj - 1;
                let v = next[col] || cur[jj];
                cur.set(col, v);
                jj = col;
            }
        } else {
            let mut col: usize = 0;
            while col < n
                invariant
                    m == p@.len(),
                    n == s@.len(),
                    row < m,
                    p@[row as int] == pc,
                    pc != '*',
                    col <= n,
                    cur@.len() == n + 1,
                    cur@[n as int] == false,
                    next@.len() == n + 1,
                    forall|k: int| 0 <= k <= n ==> next@[k] == glob_from(p@, s@, row + 1, k),
                    forall|k: int| 0 <= k < col ==> cur@[k] == glob_from(p@, s@, row as int, k),
                decreases n - col,
            {
                let v = pc == s[col] && next[col + 1];
                cur.set(col, v);
                col = col + 1;
            }
            assert(cur@[n as int] == glob_from(p@, s@, row as int, n as int));
        }
        next = cur;
        i = row;
    }
    next[0]
}

/// A pattern without `*` matches exactly the name equal to it.
pub proof fn lemma_plain_pattern_matches_itself_only(pattern: Seq<char>, name: Seq<char>)
    requires
        !has_star(pattern),
    ensures
        glob_match(pattern, name) <==> pattern == name,
{
    lemma_plain_from(pattern, name, 0);
    if pattern.len() == name.len() && glob_match(pattern, name) {
        assert(pattern =~= name);
    }
}

proof fn lemma_plain_from(p: Seq<char>, s: Seq<char>, i: int)
    requires
        !has_star(p),
        0 <= i <= p.len(),
        i <= s.len(),
    ensures
        glob_from(p, s, i, i) <==> (p.len() == s.len() && forall|k: int| i <= k < p.len() ==> p[k] == s[k]),
    decreases p.len() - i,
{
    if i < p.len() {
        assert(p[i] != '*');
        if i < s.len() {
            lemma_plain_from(p, s, i + 1);
        }
    }
}

/// The pattern `*` matches every name.
pub proof fn lemma_star_matches_all(name: Seq<char>)
    ensures
        glob_match(seq!['*'], name),
{
    lemma_star_from(name, 0);
}

proof fn lemma_star_from(s: Seq<char>, j: int)
    requires
        0 <= j <= s.len(),
    ensures
        glob_from(seq!['*'], s, 0, j),
    decreases s.len() - j,
{
    let p = seq!['*'];
    assert(p[0] == '*');
    assert(glob_from(p, s, 1, j) == (j >= s.len()));
    if j < s.len() {
        lemma_star_from(s, j + 1);
    }
}

/// A star-free `prefix` followed by `*` matches exactly the names that start
/// with `prefix` (so `firefox*` covers every firefox instance).
pub proof fn lemma_prefix_star_matches_extensions(prefix: Seq<char>, name: Seq<char>)
    requires
        !has_star(prefix),
    ensures
        glob_match(prefix.push('*'), name) <==> (prefix.len() <= name.len() && name.subrange(0, prefix.len() as int) == prefix),
{
    let p = prefix.push('*');
    assert(p[prefix.len() as int] == '*');
    assert forall|j: int| 0 <= j <= name.len() implies glob_from(p, name, prefix.len() as int, j) by {
        lemma_trailing_star(p, name, j);
    }
    lemma_prefix_from(prefix, name, 0);
    if prefix.len() <= name.len() && glob_match(p, name) {
        assert(name.subrange(0, prefix.len() as int) =~= prefix);
    }
}

proof fn lemma_trailing_star(p: Seq<char>, s: Seq<char>, j: int)
    requires
        p.len() >= 1,
        p[p.len() - 1] == '*',
        0 <= j <= s.len(),
    ensures
        glob_from(p, s, p.len() - 1, j),
    decreases s.len() - j,
{
    assert(glob_from(p, s, p.len() as int, j) == (j >= s.len()));
    if j < s.len() {
        lemma_trailing_star(p, s, j + 1);
    }
}

proof fn lemma_prefix_from(prefix: Seq<char>, s: Seq<char>, i: int)
    requires
        !has_star(prefix),
        0 <= i <= prefix.len(),
        i <= s.len(),
        forall|j: int| 0 <= j <= s.len() ==> glob_from(prefix.push('*'), s, prefix.len() as int, j),
    ensures
        glob_from(prefix.push('*'), s, i, i) <==> (prefix.len() <= s.len() && forall|k: int| i <= k < prefix.len() ==> prefix[k] == s[k]),
    decreases prefix.len() - i,
{
    let p = prefix.push('*');
    if i < prefix.len() {
        assert(p[i] == prefix[i]);
        assert(prefix[i] != '*');
        if i < s.len() {
            lemma_prefix_from(prefix, s, i + 1);
        }
    }
}

} // verus!
