//! Case-insensitive search by name.
use vstd::prelude::*;
use vstd::string::StrSliceExecFns;

verus! {

/// The text that lower-case mapping gives for `s`.
pub uninterp spec fn lower_of(s: Seq<char>) -> Seq<char>;

/// Relies on `str::to_lowercase`: the result depends on the characters alone.
#[verifier::external_body]
fn lowercase(s: &str) -> (r: String)
    ensures
        r@ == lower_of(s@),
{
    s.to_lowercase()
}

/// `q` occurs in `s` as a run of consecutive characters.
pub open spec fn contains_seq(s: Seq<char>, q: Seq<char>) -> bool {
    exists|i: int| 0 <= i && i + q.len() <= s.len() && #[trigger] s.subrange(i, i + q.len()) == q
}

/// Whether `q` occurs in `s`.
pub fn contains_chars(s: &str, q: &str) -> (r: bool)
    ensures
        r == contains_seq(s@, q@),
{
    let n = s.unicode_len();
    let m = q.unicode_len();
    if m > n {
        return false;
    }
    let mut i: usize = 0;
    while i <= n - m
        invariant
            n == s@.len(),
            m == q@.len(),
            m <= n,
            i <= n - m + 1,
            forall|j: int| 0 <= j < i ==> #[trigger] s@.subrange(j, j + m) != q@,
        decreases n - m + 1 - i,
    {
        let mut k: usize = 0;
        let mut same = true;
        while k < m && same
            invariant
                i + m <= n,
                n == s@.len(),
                m == q@.len(),
                k <= m,
                same <==> forall|t: int| 0 <= t < k ==> s@[i + t] == q@[t],
            decreases m - k,
        {
            if s.get_char(i + k) != q.get_char(k) {
                same = false;
            }
            k = k + 1;
        }
        if same {
            assert(s@.subrange(i as int, i + m) =~= q@);
            return true;
        }
        proof {
            let t = choose|t: int| 0 <= t < k && s@[i + t] != q@[t];
            assert(s@.subrange(i as int, i + m)[t] != q@[t]);
        }
        i = i + 1;
    }
    false
}

/// Whether an entry named `name` answers the query `query`, both already lower-cased:
/// a name matches when it holds the query, a missing name only an empty query.
pub open spec fn matches_lowered_spec(name: Option<Seq<char>>, query: Seq<char>) -> bool {
    match name {
        Some(n) => contains_seq(n, query),
        None => query.len() == 0,
    }
}

/// Whether the lower-cased `name` answers the lower-cased `query`.
pub fn matches_lowered(name: Option<&str>, query: &str) -> (r: bool)
    ensures
        r == matches_lowered_spec(
            match name {
                Some(n) => Some(n@),
                None => None,
            },
            query@,
        ),
{
    match name {
        Some(n) => contains_chars(n, query),
        None => query.unicode_len() == 0,
    }
}

/// Whether `name` answers `query`, case being ignored on both sides.
pub fn matches_search(name: Option<&str>, query: &str) -> (r: bool)
    ensures
        r == matches_lowered_spec(
            match name {
                Some(n) => Some(lower_of(n@)),
                None => None,
            },
            lower_of(query@),
        ),
{
    let q = lowercase(query);
    match name {
        Some(n) => {
            let lowered = lowercase(n);
            matches_lowered(Some(lowered.as_str()), q.as_str())
        },
        None => matches_lowered(None, q.as_str()),
    }
}

/// Positions of the entries whose names answer `query`, in order.
pub fn search_by_name(names: &Vec<Option<String>>, query: &str) -> (r: Vec<usize>)
    ensures
        forall|i: int| 0 <= i < r@.len() ==> (#[trigger] r@[i]) < names@.len(),
        forall|i: int, j: int| 0 <= i < j < r@.len() ==> r@[i] < r@[j],
        forall|k: int|
            0 <= k < names@.len() ==> (r@.contains(k as usize) <==> matches_lowered_spec(
                match #[trigger] names@[k] {
                    Some(n) => Some(lower_of(n@)),
                    None => None,
                },
                lower_of(query@),
            )),
{
    let mut out: Vec<usize> = Vec::new();
    let mut k: usize = 0;
    while k < names.len()
        invariant
            k <= names@.len(),
            forall|i: int| 0 <= i < out@.len() ==> (#[trigger] out@[i]) < k,
            forall|i: int, j: int| 0 <= i < j < out@.len() ==> out@[i] < out@[j],
            forall|x: int|
                0 <= x < k ==> (out@.contains(x as usize) <==> matches_lowered_spec(
                    match #[trigger] names@[x] {
                        Some(n) => Some(lower_of(n@)),
                        None => None,
                    },
                    lower_of(query@),
                )),
        decreases names@.len() - k,
    {
        let hit = match &names[k] {
            Some(n) => matches_search(Some(n.as_str()), query),
            None => matches_search(None, query),
        };
        let ghost before = out@;
        if hit {
            out.push(k);
        }
        assert forall|x: int|
            0 <= x < k + 1 implies (out@.contains(x as usize) <==> matches_lowered_spec(
                match #[trigger] names@[x] {
                    Some(n) => Some(lower_of(n@)),
                    None => None,
                },
                lower_of(query@),
            )) by {
            if x < k {
                if out@.contains(x as usize) && !before.contains(x as usize) {
                    let y = choose|y: int| 0 <= y < out@.len() && out@[y] == x as usize;
                    assert(y == before.len());
                }
                if before.contains(x as usize) {
                    let y = choose|y: int| 0 <= y < before.len() && before[y] == x as usize;
                    assert(out@[y] == x as usize);
                }
            } else {
                if hit {
                    assert(out@[before.len() as int] == k);
                } else {
                    assert(out@ == before);
                }
            }
        }
        k = k + 1;
    }
    out
}

} // verus!
