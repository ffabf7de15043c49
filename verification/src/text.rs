//! Small helpers for reasoning about text: the byte length of a character
//! sequence under UTF-8, and executable equality of string slices.

use vstd::prelude::*;

verus! {

/// The number of bytes the character sequence `s` occupies under UTF-8.
/// Rust's `str::len` reports exactly this.
pub open spec fn byte_len(s: Seq<char>) -> nat {
    vstd::utf8::encode_utf8(s).len()
}

/// For ASCII text the byte length equals the character count.
pub proof fn lemma_ascii_byte_len(s: Seq<char>)
    requires
        vstd::utf8::is_ascii_chars(s),
    ensures
        byte_len(s) == s.len(),
{
    vstd::utf8::is_ascii_chars_encode_utf8(s);
}

/// The byte length of `s`, as `str::len` returns it. Exact whenever the
/// byte length fits in `usize`, which holds of any string a process can
/// actually hold in memory; callers record that bound where they need it.
pub fn str_byte_len(s: &str) -> (n: usize)
    ensures
        byte_len(s@) <= usize::MAX ==> n == byte_len(s@),
{
    s.len()
}

/// Executable equality of string slices, specified over their views.
pub fn str_eq(a: &str, b: &str) -> (r: bool)
    ensures
        r == (a@ == b@),
{
    let owned_a = a.to_owned();
    let owned_b = b.to_owned();
    owned_a == owned_b
}

/// UTF-8 encoding distributes over concatenation.
pub proof fn lemma_encode_utf8_concat(a: Seq<char>, b: Seq<char>)
    ensures
        vstd::utf8::encode_utf8(a + b) == vstd::utf8::encode_utf8(a) + vstd::utf8::encode_utf8(b),
    decreases a.len(),
{
    if a.len() == 0 {
        assert(a + b =~= b);
        assert(vstd::utf8::encode_utf8(a) + vstd::utf8::encode_utf8(b) =~= vstd::utf8::encode_utf8(
            b,
        ));
    } else {
        assert((a + b).len() > 0);
        assert((a + b)[0] == a[0]);
        assert((a + b).drop_first() =~= a.drop_first() + b);
        lemma_encode_utf8_concat(a.drop_first(), b);
        assert(vstd::utf8::encode_utf8(a + b) =~= vstd::utf8::encode_utf8(a)
            + vstd::utf8::encode_utf8(b));
    }
}

/// Whether `n` occurs in `h` starting at position `i`.
pub open spec fn occurs_at(h: Seq<u8>, n: Seq<u8>, i: int) -> bool {
    0 <= i && i + n.len() <= h.len() && h.subrange(i, i + n.len()) == n
}

/// Whether `i` is the first position at which `n` occurs in `h`.
pub open spec fn first_occurrence_at(h: Seq<u8>, n: Seq<u8>, i: int) -> bool {
    occurs_at(h, n, i) && forall|j: int| 0 <= j < i ==> !occurs_at(h, n, j)
}

/// The position of the first occurrence of `n` in `h`, if `n` occurs.
pub fn find_subslice(h: &[u8], n: &[u8]) -> (r: Option<usize>)
    ensures
        match r {
            Some(i) => first_occurrence_at(h@, n@, i as int),
            None => forall|j: int| !occurs_at(h@, n@, j),
        },
{
    let hl = h.len();
    let nl = n.len();
    if nl > hl {
        return None;
    }
    if nl == 0 {
        proof {
            assert(h@.subrange(0, 0) =~= n@);
        }
        return Some(0);
    }
    let mut i: usize = 0;
    while i <= hl - nl
        invariant
            1 <= nl <= hl,
            hl == h@.len(),
            nl == n@.len(),
            i <= hl - nl + 1,
            forall|j: int| 0 <= j < i ==> !occurs_at(h@, n@, j),
        decreases hl - nl - i + 1,
    {
        let mut k: usize = 0;
        let mut matched = true;
        while k < nl && matched
            invariant
                nl <= hl,
                hl == h@.len(),
                nl == n@.len(),
                i + nl <= hl,
                k <= nl,
                matched ==> forall|l: int| 0 <= l < k ==> h@[i + l] == n@[l],
                !matched ==> !occurs_at(h@, n@, i as int),
            decreases nl - k,
        {
            if *vstd::slice::slice_index_get(h, i + k) != *vstd::slice::slice_index_get(n, k) {
                proof {
                    if occurs_at(h@, n@, i as int) {
                        assert(h@.subrange(i as int, i + nl)[k as int] == h@[i + k]);
                        assert(false);
                    }
                }
                matched = false;
            }
            k = k + 1;
        }
        if matched {
            proof {
                assert(h@.subrange(i as int, i + nl) =~= n@);
            }
            return Some(i);
        }
        i = i + 1;
    }
    proof {
        assert(forall|j: int| j > hl - nl ==> !occurs_at(h@, n@, j));
    }
    None
}

/// Splices `snippet` into `page` right before the first occurrence of
/// `marker`; a page without the marker comes back unchanged. The marker is
/// ASCII and non-empty, so the splice point always falls on a character
/// boundary.
pub fn insert_before_marker(page: &str, marker: &str, snippet: &str) -> (r: String)
    requires
        marker@.len() > 0,
        vstd::utf8::is_ascii_chars(marker@),
    ensures
        (forall|j: int|
            !occurs_at(
                vstd::utf8::encode_utf8(page@),
                vstd::utf8::encode_utf8(marker@),
                j,
            )) ==> r@ == page@,
        forall|i: int|
            first_occurrence_at(
                vstd::utf8::encode_utf8(page@),
                vstd::utf8::encode_utf8(marker@),
                i,
            ) ==> vstd::utf8::encode_utf8(r@) == vstd::utf8::encode_utf8(page@).subrange(0, i)
                + vstd::utf8::encode_utf8(snippet@) + vstd::utf8::encode_utf8(page@).subrange(
                i,
                vstd::utf8::encode_utf8(page@).len() as int,
            ),
{
    let hb = page.as_bytes();
    let nb = marker.as_bytes();
    match find_subslice(hb, nb) {
        None => page.to_owned(),
        Some(i) => {
            proof {
                broadcast use vstd::utf8::encode_utf8_valid_utf8;

                vstd::utf8::is_ascii_chars_encode_utf8(marker@);
                assert(hb@.subrange(i as int, i + nb@.len())[0] == hb@[i as int]);
                assert(hb@[i as int] == nb@[0]);
                assert(nb@[0] == marker@[0] as u8);
                assert(!vstd::utf8::is_continuation_byte(hb@[i as int]));
                vstd::utf8::is_char_boundary_iff_not_is_continuation_byte(hb@, i as int);
            }
            let (before, after) = page.split_at(i);
            let mut out = before.to_owned();
            out.append(snippet);
            out.append(after);
            proof {
                lemma_encode_utf8_concat(before@ + snippet@, after@);
                lemma_encode_utf8_concat(before@, snippet@);
                assert(out@ =~= before@ + snippet@ + after@);
                assert((before@ + snippet@) + after@ =~= before@ + snippet@ + after@);
                assert(forall|i2: int|
                    first_occurrence_at(
                        vstd::utf8::encode_utf8(page@),
                        vstd::utf8::encode_utf8(marker@),
                        i2,
                    ) ==> i2 == i as int);
            }
            out
        },
    }
}

} // verus!
