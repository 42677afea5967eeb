//! The compute part of link-preview rendering: pulling the title text out
//! of fetched HTML.  Fetching is the host's concern; this module only
//! searches the bytes it is handed.

use vstd::prelude::*;

verus! {

/// Whether `pat` occurs in `h` starting at index `i`.
pub open spec fn occurs_at(h: Seq<u8>, pat: Seq<u8>, i: int) -> bool {
    &&& 0 <= i
    &&& i + pat.len() <= h.len()
    &&& h.subrange(i, i + pat.len()) == pat
}

/// The title of an HTML document: the bytes between the first opening
/// title tag and the next closing one after it, when both exist.
pub open spec fn title_of(h: Seq<u8>, open: Seq<u8>, close: Seq<u8>, i: int, j: int) -> Seq<u8> {
    h.subrange(i + open.len(), j)
}

/// Finds the first occurrence of `pat` in `h` at or after `from`.
fn find_from(h: &[u8], pat: &[u8], from: usize) -> (r: Option<usize>)
    requires
        from <= h@.len(),
        pat@.len() >= 1,
    ensures
        r matches Some(i) ==> from <= i && occurs_at(h@, pat@, i as int) && forall|j: int|
            from <= j < i ==> !occurs_at(h@, pat@, j),
        r is None ==> forall|j: int| from <= j ==> !occurs_at(h@, pat@, j),
{
    if pat.len() > h.len() {
        return None;
    }
    let limit = h.len() - pat.len();
    if from > limit {
        proof {
            assert(forall|j: int| j > limit ==> !occurs_at(h@, pat@, j));
        }
        return None;
    }
    let mut i: usize = from;
    while i <= limit
        invariant
            from <= i,
            pat@.len() >= 1,
            h@.len() <= usize::MAX,
            limit == h@.len() - pat@.len(),
            i <= limit + 1,
            forall|j: int| from <= j < i ==> !occurs_at(h@, pat@, j),
        decreases limit + 1 - i,
    {
        proof {
            assert(i + pat@.len() <= h@.len());
        }
        let mut k: usize = 0;
        let mut hit = true;
        while k < pat.len() && hit
            invariant
                i + pat@.len() <= h@.len(),
                h@.len() <= usize::MAX,
                k <= pat@.len(),
                hit ==> forall|t: int| 0 <= t < k ==> h@[i + t] == pat@[t],
                !hit ==> !occurs_at(h@, pat@, i as int),
            decreases pat@.len() - k + (if hit {
                1int
            } else {
                0int
            }),
        {
            if h[i + k] != pat[k] {
                proof {
                    assert(h@.subrange(i as int, i + pat@.len())[k as int] == h@[i + k]);
                }
                hit = false;
            } else {
                k = k + 1;
            }
        }
        if hit {
            proof {
                assert(h@.subrange(i as int, i + pat@.len()) =~= pat@);
            }
            return Some(i);
        }
        i = i + 1;
    }
    proof {
        assert(forall|j: int| j > limit ==> !occurs_at(h@, pat@, j));
    }
    None
}

/// Extracts the bytes between the first `open` marker and the next
/// `close` marker after it: the title of a fetched page.  Returns `None`
/// when either marker is missing.
pub fn extract_title(html: &[u8], open: &[u8], close: &[u8]) -> (r: Option<Vec<u8>>)
    requires
        open@.len() >= 1,
        close@.len() >= 1,
    ensures
        r matches Some(t) ==> exists|i: int, j: int|
            {
                &&& #[trigger] occurs_at(html@, open@, i)
                &&& forall|i2: int| 0 <= i2 < i ==> !occurs_at(html@, open@, i2)
                &&& #[trigger] occurs_at(html@, close@, j)
                &&& i + open@.len() <= j
                &&& forall|j2: int| i + open@.len() <= j2 < j ==> !occurs_at(html@, close@, j2)
                &&& t@ == title_of(html@, open@, close@, i, j)
            },
        r is None ==> (forall|i: int| !occurs_at(html@, open@, i)) || (exists|i: int|
            #[trigger] occurs_at(html@, open@, i) && (forall|i2: int|
                0 <= i2 < i ==> !occurs_at(html@, open@, i2)) && forall|j: int|
                i + open@.len() <= j ==> !occurs_at(html@, close@, j)),
{
    let start = match find_from(html, open, 0) {
        Some(i) => i,
        None => { return None },
    };
    let html_len = html.len();
    proof {
        assert(start + open@.len() <= html_len);
    }
    let content_start = start + open.len();
    let end = match find_from(html, close, content_start) {
        Some(j) => j,
        None => { return None },
    };
    let title = vstd::slice::slice_to_vec(
        vstd::slice::slice_subrange(html, content_start, end),
    );
    proof {
        assert(title@ == title_of(html@, open@, close@, start as int, end as int));
    }
    Some(title)
}

} // verus!
