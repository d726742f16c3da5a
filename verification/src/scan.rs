//! Looking through bytes: where a byte first or last stands, what is left
//! without the bytes at the end, and whether a run of bytes occurs.

use vstd::prelude::*;

verus! {

/// Where `b` first occurs in `s`; the length of `s` where it does not.
pub open spec fn position(s: Seq<u8>, b: u8) -> int
    decreases s.len(),
{
    if s.len() == 0 {
        0
    } else if s[0] == b {
        0
    } else {
        1 + position(s.drop_first(), b)
    }
}

/// Where `b` last occurs in `s`; -1 where it does not.
pub open spec fn last_position(s: Seq<u8>, b: u8) -> int
    decreases s.len(),
{
    if s.len() == 0 {
        -1
    } else if s.last() == b {
        s.len() - 1
    } else {
        last_position(s.drop_last(), b)
    }
}

/// The first occurrence is the place before which `b` does not occur and
/// at which it does, or at which `s` ends.
pub proof fn lemma_position(s: Seq<u8>, b: u8, k: int)
    requires
        0 <= k <= s.len(),
        forall|j: int| 0 <= j < k ==> s[j] != b,
        k == s.len() || s[k] == b,
    ensures
        position(s, b) == k,
    decreases k,
{
    if k > 0 {
        let t = s.drop_first();
        assert forall|j: int| 0 <= j < k - 1 implies t[j] != b by {
            assert(t[j] == s[j + 1]);
        }
        lemma_position(t, b, k - 1);
    }
}

/// The last occurrence is the place after which `b` does not occur and at
/// which it does, or -1 where it occurs nowhere.
pub proof fn lemma_last_position(s: Seq<u8>, b: u8, k: int)
    requires
        -1 <= k < s.len(),
        forall|j: int| k < j < s.len() ==> s[j] != b,
        k == -1 || s[k] == b,
    ensures
        last_position(s, b) == k,
    decreases s.len() - k,
{
    if k < s.len() - 1 {
        let t = s.drop_last();
        lemma_last_position(t, b, k);
    }
}

/// The first occurrence lies within `s` exactly where `b` occurs in `s`,
/// and `b` stands there.
pub proof fn lemma_position_found(s: Seq<u8>, b: u8)
    ensures
        0 <= position(s, b) <= s.len(),
        position(s, b) < s.len() <==> s.contains(b),
        position(s, b) < s.len() ==> s[position(s, b)] == b,
        forall|j: int| 0 <= j < position(s, b) ==> s[j] != b,
    decreases s.len(),
{
    if s.len() > 0 && s[0] != b {
        let t = s.drop_first();
        lemma_position_found(t, b);
        if t.contains(b) {
            let i = choose|i: int| 0 <= i < t.len() && t[i] == b;
            assert(s[i + 1] == b);
        }
        if s.contains(b) {
            let i = choose|i: int| 0 <= i < s.len() && s[i] == b;
            assert(t[i - 1] == b);
        }
        assert forall|j: int| 0 <= j < position(s, b) implies s[j] != b by {
            if j > 0 {
                assert(t[j - 1] == s[j]);
            }
        }
    } else if s.len() > 0 {
        assert(s[0] == b);
    }
}

/// The last occurrence lies within `s`, `b` stands there, and `b` does not
/// occur after it.
pub proof fn lemma_last_position_found(s: Seq<u8>, b: u8)
    ensures
        -1 <= last_position(s, b) < s.len(),
        last_position(s, b) >= 0 ==> s[last_position(s, b)] == b,
        forall|j: int| last_position(s, b) < j < s.len() ==> s[j] != b,
    decreases s.len(),
{
    if s.len() > 0 && s.last() != b {
        let t = s.drop_last();
        lemma_last_position_found(t, b);
        assert forall|j: int| last_position(s, b) < j < s.len() implies s[j] != b by {
            if j < s.len() - 1 {
                assert(t[j] == s[j]);
            }
        }
    }
}

/// Finds the first `b` in `s` from `from` on.
pub fn find_from(s: &[u8], from: usize, b: u8) -> (k: usize)
    requires
        from <= s@.len(),
    ensures
        k == from + position(s@.subrange(from as int, s@.len() as int), b),
        from <= k <= s@.len(),
        forall|j: int| from <= j < k ==> s@[j] != b,
        k < s@.len() ==> s@[k as int] == b,
{
    let mut k: usize = from;
    while k < s.len() && s[k] != b
        invariant
            from <= k <= s@.len(),
            forall|j: int| from <= j < k ==> s@[j] != b,
        decreases s@.len() - k,
    {
        k = k + 1;
    }
    proof {
        lemma_position(s@.subrange(from as int, s@.len() as int), b, k - from);
    }
    k
}

/// Finds the last `b` in `s`, where there is one.
pub fn find_last(s: &[u8], b: u8) -> (r: Option<usize>)
    ensures
        match r {
            Some(k) => k == last_position(s@, b) && k < s@.len() && s@[k as int] == b,
            None => last_position(s@, b) == -1,
        },
{
    let mut k: usize = s.len();
    while k > 0 && s[k - 1] != b
        invariant
            k <= s@.len(),
            forall|j: int| k <= j < s@.len() ==> s@[j] != b,
        decreases k,
    {
        k = k - 1;
    }
    proof {
        lemma_last_position(s@, b, k - 1);
    }
    if k == 0 {
        None
    } else {
        Some(k - 1)
    }
}

/// What is left of `s` without the bytes `b` that it ends in.
pub open spec fn trim_end(s: Seq<u8>, b: u8) -> Seq<u8>
    decreases s.len(),
{
    if s.len() > 0 && s.last() == b {
        trim_end(s.drop_last(), b)
    } else {
        s
    }
}

/// Finds where `s` ends once the bytes `b` at its end are left out, not
/// going below `from`.
pub fn trimmed_end(s: &[u8], from: usize, b: u8) -> (end: usize)
    requires
        from <= s@.len(),
    ensures
        from <= end <= s@.len(),
        s@.subrange(from as int, end as int) == trim_end(
            s@.subrange(from as int, s@.len() as int),
            b,
        ),
{
    let mut end: usize = s.len();
    while end > from && s[end - 1] == b
        invariant
            from <= end <= s@.len(),
            trim_end(s@.subrange(from as int, end as int), b) == trim_end(
                s@.subrange(from as int, s@.len() as int),
                b,
            ),
        decreases end,
    {
        assert(s@.subrange(from as int, end as int).drop_last() =~= s@.subrange(
            from as int,
            end - 1,
        ));
        end = end - 1;
    }
    end
}

/// Whether the bytes `pattern` stand in `s` from `i` on.
pub open spec fn occurs_at(s: Seq<u8>, pattern: Seq<u8>, i: int) -> bool {
    0 <= i && i + pattern.len() <= s.len() && s.subrange(i, i + pattern.len()) == pattern
}

/// Whether the bytes `pattern` stand in `s`, one after the other.
pub open spec fn contains_run(s: Seq<u8>, pattern: Seq<u8>) -> bool {
    exists|i: int| occurs_at(s, pattern, i)
}

/// Whether `pattern` stands in `s` from `at` on.
fn matches_at(s: &[u8], pattern: &[u8], at: usize) -> (r: bool)
    requires
        at + pattern@.len() <= s@.len(),
    ensures
        r == occurs_at(s@, pattern@, at as int),
{
    let len = s.len();
    let mut j: usize = 0;
    while j < pattern.len()
        invariant
            j <= pattern@.len(),
            at + pattern@.len() <= s@.len() == len,
            forall|k: int| 0 <= k < j ==> s@[at + k] == pattern@[k],
        decreases pattern@.len() - j,
    {
        if s[at + j] != pattern[j] {
            assert(s@.subrange(at as int, at + pattern@.len())[j as int] != pattern@[j as int]);
            return false;
        }
        j = j + 1;
    }
    assert(s@.subrange(at as int, at + pattern@.len()) =~= pattern@);
    true
}

/// Whether the bytes `pattern` stand in `s`, one after the other.
pub fn has_run(s: &[u8], pattern: &[u8]) -> (r: bool)
    ensures
        r == contains_run(s@, pattern@),
{
    if pattern.len() > s.len() {
        return false;
    }
    let last = s.len() - pattern.len();
    let mut i: usize = 0;
    loop
        invariant
            i <= last,
            last == s@.len() - pattern@.len(),
            forall|k: int| 0 <= k < i ==> !occurs_at(s@, pattern@, k),
        decreases last - i,
    {
        if matches_at(s, pattern, i) {
            return true;
        }
        if i == last {
            return false;
        }
        i = i + 1;
    }
}

} // verus!
