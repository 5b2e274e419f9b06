//! The integer and text parts of object detection: class names read from the
//! model's metadata, labels, and greedy non-maximum suppression.
use vstd::prelude::*;
use crate::text::string_views;

verus! {

broadcast use vstd::string::group_string_axioms;

// ---------------------------------------------------------------------------
// Class names
// ---------------------------------------------------------------------------

/// What `regex` gives for a pattern and a text: `None` when
/// `regex::Regex::new(pattern)` fails; else, for each successive
/// non-overlapping match that `Regex::captures_iter(text)` yields, the text
/// of capture group `group`, or `None` where that group took no part in the
/// match.
pub uninterp spec fn regex_group_captures(pattern: Seq<char>, text: Seq<char>, group: nat) -> Option<
    Seq<Option<Seq<char>>>,
>;

/// The views of optional strings.
pub open spec fn optional_views(v: Seq<Option<String>>) -> Seq<Option<Seq<char>>> {
    v.map_values(
        |o: Option<String>|
            match o {
                Some(s) => Some(s@),
                None => None,
            },
    )
}

/// Compiles `pattern` with `regex::Regex::new` and collects, for each match
/// of `Regex::captures_iter(text)`, the text of capture group `group`
/// (`Captures::get(group)`). The contract only names the result: it is
/// whatever `regex` computes for these three arguments.
#[verifier::external_body]
fn regex_capture_group(pattern: &str, text: &str, group: usize) -> (r: Option<
    Vec<Option<String>>,
>)
    ensures
        match r {
            None => regex_group_captures(pattern@, text@, group as nat) is None,
            Some(v) => regex_group_captures(pattern@, text@, group as nat) == Some(
                optional_views(v@),
            ),
        },
{
    match regex::Regex::new(pattern) {
        Ok(re) => Some(
            re.captures_iter(text).map(|c| c.get(group).map(|m| m.as_str().to_string())).collect(),
        ),
        Err(_) => None,
    }
}

/// The pattern of a quoted class name in the model's `names` metadata, such
/// as `{0: 'person', 1: 'bicycle'}`; the name is its second group.
pub open spec fn names_pattern() -> Seq<char> {
    "(['\"])([-()\\w '\"]+)(['\"])"@
}

/// The texts that took part, in order.
pub open spec fn present(caps: Seq<Option<Seq<char>>>) -> Seq<Seq<char>>
    decreases caps.len(),
{
    if caps.len() == 0 {
        seq![]
    } else {
        let rest = present(caps.drop_last());
        match caps.last() {
            Some(t) => rest.push(t),
            None => rest,
        }
    }
}

/// The class names that a `names` metadata entry lists.
pub open spec fn listed_names(metadata: Seq<char>) -> Option<Seq<Seq<char>>> {
    match regex_group_captures(names_pattern(), metadata, 2) {
        Some(caps) => Some(present(caps)),
        None => None,
    }
}

/// The texts of the captures that took part, in order.
pub fn present_captures(caps: &Vec<Option<String>>) -> (names: Vec<String>)
    ensures
        string_views(names@) == present(optional_views(caps@)),
{
    let ghost cv = optional_views(caps@);
    let mut names: Vec<String> = Vec::new();
    let mut i: usize = 0;
    assert(cv.take(0) =~= Seq::<Option<Seq<char>>>::empty());
    while i < caps.len()
        invariant
            0 <= i <= caps.len(),
            cv == optional_views(caps@),
            string_views(names@) == present(cv.take(i as int)),
        decreases caps.len() - i,
    {
        assert(cv.take(i + 1).drop_last() =~= cv.take(i as int));
        let ghost before = string_views(names@);
        match &caps[i] {
            Some(t) => {
                names.push(t.clone());
                assert(string_views(names@) =~= before.push(t@));
            },
            None => {},
        }
        i = i + 1;
    }
    assert(cv.take(i as int) =~= cv);
    names
}

/// Reads the class names out of the model's `names` metadata: the text of
/// every quoted name, in order. No metadata gives no names. (Each match of
/// the pattern fills all of its groups.)
pub fn class_names(metadata: Option<String>) -> (r: Option<Vec<String>>)
    ensures
        match metadata {
            None => r is None,
            Some(m) => match listed_names(m@) {
                None => r is None,
                Some(names) => r matches Some(v) && string_views(v@) == names,
            },
        },
{
    match metadata {
        None => None,
        Some(m) => {
            let pattern = "(['\"])([-()\\w '\"]+)(['\"])";
            match regex_capture_group(pattern, m.as_str(), 2) {
                None => None,
                Some(caps) => Some(present_captures(&caps)),
            }
        },
    }
}

/// The label of a class: its name when the model lists it, else `"unknown"`.
pub fn class_label(classes: &Vec<String>, class_id: usize) -> (label: String)
    ensures
        label@ == if class_id < classes@.len() {
            classes@[class_id as int]@
        } else {
            "unknown"@
        },
{
    if class_id < classes.len() {
        classes[class_id].clone()
    } else {
        "unknown".to_string()
    }
}

// ---------------------------------------------------------------------------
// Non-maximum suppression
// ---------------------------------------------------------------------------

/// The views of the rows of a matrix.
pub open spec fn rows_view(m: Seq<Vec<bool>>) -> Seq<Seq<bool>> {
    m.map_values(|r: Vec<bool>| r@)
}

/// A square matrix of `n` rows of `n` entries.
pub open spec fn is_square(m: Seq<Seq<bool>>, n: nat) -> bool {
    &&& m.len() == n
    &&& forall|i: int| 0 <= i < n ==> (#[trigger] m[i]).len() == n
}

/// Some kept candidate overlaps candidate `c` too much.
pub open spec fn suppressed(overlap: Seq<Seq<bool>>, kept: Seq<usize>, c: int) -> bool {
    exists|j: int| 0 <= j < kept.len() && #[trigger] overlap[kept[j] as int][c]
}

/// The candidates that greedy suppression keeps among the first `k`: each
/// candidate is kept unless a candidate kept before it overlaps it.
pub open spec fn nms_kept(overlap: Seq<Seq<bool>>, k: nat) -> Seq<usize>
    decreases k,
{
    if k == 0 {
        seq![]
    } else {
        let p = nms_kept(overlap, (k - 1) as nat);
        if suppressed(overlap, p, k - 1) {
            p
        } else {
            p.push((k - 1) as usize)
        }
    }
}

/// Greedy non-maximum suppression over candidates listed from the most to
/// the least confident. `overlap[i][j]` says that candidate `j` overlaps
/// candidate `i` too much to be kept beside it. Returns the kept candidates,
/// in order.
pub fn non_max_suppression(overlap: &Vec<Vec<bool>>) -> (kept: Vec<usize>)
    requires
        is_square(rows_view(overlap@), overlap@.len()),
    ensures
        kept@ == nms_kept(rows_view(overlap@), overlap@.len()),
{
    let ghost m = rows_view(overlap@);
    let n = overlap.len();
    let mut kept: Vec<usize> = Vec::new();
    let mut c: usize = 0;
    while c < n
        invariant
            0 <= c <= n,
            n == overlap@.len(),
            m == rows_view(overlap@),
            is_square(m, n as nat),
            kept@ == nms_kept(m, c as nat),
            forall|j: int| 0 <= j < kept@.len() ==> kept@[j] < c,
        decreases n - c,
    {
        let mut hit = false;
        let mut j: usize = 0;
        while j < kept.len()
            invariant
                0 <= j <= kept.len(),
                c < n,
                n == overlap@.len(),
                m == rows_view(overlap@),
                is_square(m, n as nat),
                forall|t: int| 0 <= t < kept@.len() ==> kept@[t] < c,
                hit <==> exists|t: int| 0 <= t < j && #[trigger] m[kept@[t] as int][c as int],
            decreases kept.len() - j,
        {
            let row = kept[j];
            assert(overlap@[row as int]@ == m[row as int]);
            if overlap[row][c] {
                hit = true;
            }
            j = j + 1;
        }
        assert(hit == suppressed(m, kept@, c as int));
        if !hit {
            kept.push(c);
        }
        c = c + 1;
    }
    kept
}

proof fn lemma_nms_kept_bounds(overlap: Seq<Seq<bool>>, k: nat)
    requires
        k <= usize::MAX,
    ensures
        forall|a: int| 0 <= a < nms_kept(overlap, k).len() ==> nms_kept(overlap, k)[a] < k,
        forall|a: int, b: int|
            0 <= a < b < nms_kept(overlap, k).len() ==> nms_kept(overlap, k)[a] < nms_kept(
                overlap,
                k,
            )[b],
    decreases k,
{
    if k > 0 {
        lemma_nms_kept_bounds(overlap, (k - 1) as nat);
        let p = nms_kept(overlap, (k - 1) as nat);
        if !suppressed(overlap, p, k - 1) {
            let q = p.push((k - 1) as usize);
            assert(nms_kept(overlap, k) == q);
            assert forall|a: int| 0 <= a < q.len() implies q[a] < k by {
                if a < p.len() {
                    assert(q[a] == p[a]);
                }
            }
            assert forall|a: int, b: int| 0 <= a < b < q.len() implies q[a] < q[b] by {
                assert(q[a] == p[a]);
                if b < p.len() {
                    assert(q[b] == p[b]);
                }
            }
        }
    }
}

proof fn lemma_nms_kept_membership(overlap: Seq<Seq<bool>>, k: nat, c: int)
    requires
        0 <= c < k,
        k <= usize::MAX,
    ensures
        nms_kept(overlap, k).contains(c as usize) <==> !suppressed(
            overlap,
            nms_kept(overlap, c as nat),
            c,
        ),
    decreases k,
{
    lemma_nms_kept_bounds(overlap, (k - 1) as nat);
    let p = nms_kept(overlap, (k - 1) as nat);
    if c < k - 1 {
        lemma_nms_kept_membership(overlap, (k - 1) as nat, c);
        if !suppressed(overlap, p, k - 1) {
            let q = p.push((k - 1) as usize);
            assert(q.contains(c as usize) <==> p.contains(c as usize)) by {
                if q.contains(c as usize) {
                    let t = choose|t: int| 0 <= t < q.len() && #[trigger] q[t] == c as usize;
                    if t < p.len() {
                        assert(p[t] == c as usize);
                    }
                }
                if p.contains(c as usize) {
                    let t = choose|t: int| 0 <= t < p.len() && #[trigger] p[t] == c as usize;
                    assert(q[t] == c as usize);
                }
            }
        }
    } else {
        if !suppressed(overlap, p, k - 1) {
            assert(p.push((k - 1) as usize)[p.len() as int] == c as usize);
        } else {
            if p.contains(c as usize) {
                let t = choose|t: int| 0 <= t < p.len() && #[trigger] p[t] == c as usize;
                assert(p[t] < k - 1);
            }
        }
    }
}

proof fn lemma_nms_prefix(overlap: Seq<Seq<bool>>, i: nat, k: nat)
    requires
        i <= k,
        k <= usize::MAX,
    ensures
        nms_kept(overlap, i).len() <= nms_kept(overlap, k).len(),
        forall|a: int|
            0 <= a < nms_kept(overlap, i).len() ==> nms_kept(overlap, k)[a] == nms_kept(
                overlap,
                i,
            )[a],
    decreases k - i,
{
    if i < k {
        lemma_nms_prefix(overlap, i, (k - 1) as nat);
    }
}

/// Greedy suppression keeps a consistent selection: the kept candidates come
/// in increasing order; the most confident candidate is always kept; no
/// kept candidate overlaps one kept after it; and every candidate left out
/// is overlapped by a kept candidate that comes before it.
pub proof fn lemma_nms_selection(overlap: Seq<Seq<bool>>, n: nat)
    requires
        n <= usize::MAX,
    ensures
        forall|a: int, b: int|
            0 <= a < b < nms_kept(overlap, n).len() ==> nms_kept(overlap, n)[a] < nms_kept(
                overlap,
                n,
            )[b],
        forall|a: int| 0 <= a < nms_kept(overlap, n).len() ==> nms_kept(overlap, n)[a] < n,
        n > 0 ==> nms_kept(overlap, n).len() > 0 && nms_kept(overlap, n)[0] == 0,
        forall|a: int, b: int|
            0 <= a < b < nms_kept(overlap, n).len() ==> !overlap[nms_kept(overlap, n)[a] as int][nms_kept(
                overlap,
                n,
            )[b] as int],
        forall|c: int|
            0 <= c < n && !(#[trigger] nms_kept(overlap, n).contains(c as usize)) ==> exists|j: int|
                0 <= j < nms_kept(overlap, n).len() && nms_kept(overlap, n)[j] < c
                    && #[trigger] overlap[nms_kept(overlap, n)[j] as int][c],
{
    let kept = nms_kept(overlap, n);
    lemma_nms_kept_bounds(overlap, n);
    if n > 0 {
        lemma_nms_prefix(overlap, 1, n);
        assert(nms_kept(overlap, 0) =~= Seq::<usize>::empty());
        assert(nms_kept(overlap, 1) == seq![0usize]);
    }
    assert forall|a: int, b: int| 0 <= a < b < kept.len() implies !overlap[kept[a] as int][kept[b] as int] by {
        let c = kept[b] as int;
        assert(kept.contains(c as usize));
        lemma_nms_kept_membership(overlap, n, c);
        let p = nms_kept(overlap, c as nat);
        lemma_nms_prefix(overlap, c as nat, n);
        lemma_nms_kept_bounds(overlap, c as nat);
        lemma_nms_kept_membership(overlap, n, kept[a] as int);
        // kept[a] < c is kept, so it is kept within the first c candidates
        assert(kept[a] < c);
        lemma_nms_prefix(overlap, (kept[a] + 1) as nat, c as nat);
        lemma_nms_kept_membership(overlap, (kept[a] + 1) as nat, kept[a] as int);
        assert(exists|t: int| 0 <= t < p.len() && #[trigger] p[t] == kept[a]) by {
            let q = nms_kept(overlap, (kept[a] + 1) as nat);
            lemma_nms_kept_bounds(overlap, kept[a] as nat);
            let r = nms_kept(overlap, kept[a] as nat);
            assert(q == r.push(kept[a]));
            assert(q[r.len() as int] == kept[a]);
            assert(p[r.len() as int] == kept[a]);
        }
        if overlap[kept[a] as int][c] {
            let t = choose|t: int| 0 <= t < p.len() && #[trigger] p[t] == kept[a];
            assert(suppressed(overlap, p, c));
        }
    }
    assert forall|c: int| 0 <= c < n && !(#[trigger] kept.contains(c as usize)) implies exists|j: int|
        0 <= j < kept.len() && kept[j] < c && #[trigger] overlap[kept[j] as int][c] by {
        lemma_nms_kept_membership(overlap, n, c);
        let p = nms_kept(overlap, c as nat);
        lemma_nms_prefix(overlap, c as nat, n);
        lemma_nms_kept_bounds(overlap, c as nat);
        let j = choose|j: int| 0 <= j < p.len() && #[trigger] overlap[p[j] as int][c];
        assert(kept[j] == p[j]);
    }
}

} // verus!
