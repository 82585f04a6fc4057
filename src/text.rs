use vstd::prelude::*;

verus! {

/// Whether `needle` occurs in `hay` as a contiguous run of characters.
/// The empty needle occurs in every string.
pub open spec fn occurs_in(hay: Seq<char>, needle: Seq<char>) -> bool {
    exists|i: int|
        0 <= i && i + needle.len() <= hay.len() && #[trigger] hay.subrange(i, i + needle.len())
            == needle
}

/// The characters of `s`, one by one.
pub fn chars_of(s: &str) -> (v: Vec<char>)
    ensures
        v@ == s@,
{
    let n = s.unicode_len();
    let mut v: Vec<char> = Vec::new();
    let mut i: usize = 0;
    while i < n
        invariant
            n == s@.len(),
            0 <= i <= n,
            v@ == s@.subrange(0, i as int),
        decreases n - i,
    {
        v.push(s.get_char(i));
        i = i + 1;
    }
    assert(v@ =~= s@);
    v
}

/// Whether the two strings hold the same characters.
pub fn same_text(a: &str, b: &str) -> (r: bool)
    ensures
        r == (a@ == b@),
{
    let n = a.unicode_len();
    if n != b.unicode_len() {
        return false;
    }
    let mut i: usize = 0;
    while i < n
        invariant
            n == a@.len(),
            n == b@.len(),
            0 <= i <= n,
            a@.subrange(0, i as int) == b@.subrange(0, i as int),
        decreases n - i,
    {
        if a.get_char(i) != b.get_char(i) {
            return false;
        }
        proof {
            assert(a@.subrange(0, i + 1) =~= a@.subrange(0, i as int).push(a@[i as int]));
            assert(b@.subrange(0, i + 1) =~= b@.subrange(0, i as int).push(b@[i as int]));
        }
        i = i + 1;
    }
    assert(a@ =~= a@.subrange(0, n as int));
    assert(b@ =~= b@.subrange(0, n as int));
    true
}

/// Whether `needle` occurs in `hay`, compared character by character.
pub fn contains_text(hay: &str, needle: &str) -> (r: bool)
    ensures
        r == occurs_in(hay@, needle@),
{
    let h = chars_of(hay);
    let nd = chars_of(needle);
    let hn = h.len();
    let nn = nd.len();
    if nn > hn {
        assert forall|i: int| 0 <= i && i + nn <= hn implies !(#[trigger] hay@.subrange(i, i + nn)
            == needle@) by {}
        return false;
    }
    let last = hn - nn;
    let mut start: usize = 0;
    loop
        invariant
            h@ == hay@,
            nd@ == needle@,
            hn == h@.len(),
            nn == nd@.len(),
            nn <= hn,
            last == hn - nn,
            0 <= start <= last,
            forall|i: int| 0 <= i < start ==> #[trigger] hay@.subrange(i, i + nn) != needle@,
        decreases last - start,
    {
        let mut k: usize = 0;
        let mut same = true;
        while k < nn
            invariant
                h@ == hay@,
                nd@ == needle@,
                hn == h@.len(),
                nn == nd@.len(),
                start + nn <= hn,
                0 <= k <= nn,
                same ==> forall|j: int| 0 <= j < k ==> h@[start + j] == nd@[j],
                !same ==> hay@.subrange(start as int, start + nn) != needle@,
            decreases nn - k,
        {
            if h[start + k] != nd[k] {
                same = false;
                proof {
                    assert(hay@.subrange(start as int, start + nn)[k as int] != needle@[k as int]);
                }
            }
            k = k + 1;
        }
        if same {
            assert(hay@.subrange(start as int, start + nn) =~= needle@);
            return true;
        }
        if start == last {
            return false;
        }
        start = start + 1;
    }
}

/// A run of characters occurs in any text that holds it between two others.
pub proof fn lemma_occurs_between(a: Seq<char>, b: Seq<char>, c: Seq<char>)
    ensures
        occurs_in(a + b + c, b),
{
    assert((a + b + c).subrange(a.len() as int, (a.len() + b.len()) as int) =~= b);
}

/// Occurrence is transitive: what occurs in a part occurs in the whole.
pub proof fn lemma_occurs_transitive(h: Seq<char>, n: Seq<char>, k: Seq<char>)
    requires
        occurs_in(h, n),
        occurs_in(n, k),
    ensures
        occurs_in(h, k),
{
    let i = choose|i: int|
        0 <= i && i + n.len() <= h.len() && #[trigger] h.subrange(i, i + n.len()) == n;
    let j = choose|j: int|
        0 <= j && j + k.len() <= n.len() && #[trigger] n.subrange(j, j + k.len()) == k;
    assert(h.subrange(i + j, i + j + k.len()) =~= n.subrange(j, j + k.len()));
}

/// Every text occurs in itself.
pub proof fn lemma_occurs_self(h: Seq<char>)
    ensures
        occurs_in(h, h),
{
    assert(h.subrange(0, (0 + h.len()) as int) =~= h);
}

} // verus!
