use vstd::prelude::*;

verus! {

/// In-memory mirror of a remote Mode object: a (resolution, refresh-rate)
/// pairing a head supports.  `id` is the protocol object identifier the
/// remote side knows the mode by; width and height are pixels, `refresh`
/// is millihertz.
#[derive(Clone, Copy, Debug, PartialEq, Eq, Structural)]
pub struct OutputMode {
    pub id: u64,
    pub width: i32,
    pub height: i32,
    pub refresh: i32,
    pub preferred: bool,
}

impl OutputMode {
    /// A freshly advertised mode: everything zero until its Size, Refresh
    /// and Preferred events arrive.
    pub fn new(id: u64) -> (m: OutputMode)
        ensures
            m == (OutputMode { id, width: 0, height: 0, refresh: 0, preferred: false }),
    {
        OutputMode { id, width: 0, height: 0, refresh: 0, preferred: false }
    }
}

/// Display order of modes: largest first, then fastest — descending by
/// (width, height, refresh).  `a` comes no later than `b`.
pub open spec fn spec_mode_le(a: OutputMode, b: OutputMode) -> bool {
    a.width > b.width || (a.width == b.width && (a.height > b.height || (a.height == b.height
        && a.refresh >= b.refresh)))
}

/// A sequence of modes in display order.
pub open spec fn spec_modes_sorted(s: Seq<OutputMode>) -> bool {
    forall|p: int, q: int| 0 <= p < q < s.len() ==> spec_mode_le(s[p], s[q])
}

/// Whether `a` sorts no later than `b` in display order.
pub fn mode_precedes(a: &OutputMode, b: &OutputMode) -> (r: bool)
    ensures
        r == spec_mode_le(*a, *b),
{
    a.width > b.width || (a.width == b.width && (a.height > b.height || (a.height == b.height
        && a.refresh >= b.refresh)))
}

/// Swapping two neighbours of a sequence keeps its contents.
proof fn lemma_swap_preserves_multiset(before: Seq<OutputMode>, j: int)
    requires
        1 <= j < before.len(),
    ensures
        before.update(j, before[j - 1]).update(j - 1, before[j]).to_multiset()
            == before.to_multiset(),
{
    broadcast use vstd::seq_lib::group_to_multiset_ensures;
    broadcast use vstd::multiset::group_multiset_axioms;
    broadcast use vstd::multiset::group_multiset_properties;

    let a = before[j];
    let b = before[j - 1];
    let s1 = before.update(j, b);
    assert(s1.to_multiset() == before.to_multiset().insert(b).remove(a));
    let s2 = s1.update(j - 1, a);
    assert(s2.to_multiset() == s1.to_multiset().insert(a).remove(b));
    assert(s2.to_multiset() =~= before.to_multiset());
}

/// Sorts modes into display order — largest resolution first, and for one
/// resolution the highest refresh rate first — keeping exactly the given
/// modes.
pub fn sort_modes(v: &mut Vec<OutputMode>)
    ensures
        final(v)@.len() == old(v)@.len(),
        final(v)@.to_multiset() == old(v)@.to_multiset(),
        spec_modes_sorted(final(v)@),
{
    let ghost orig = v@;
    let n = v.len();
    let mut i: usize = 1;
    while i < n
        invariant
            n == v@.len(),
            1 <= i || n == 0,
            i <= n || n == 0,
            v@.to_multiset() == orig.to_multiset(),
            orig.len() == v@.len(),
            forall|p: int, q: int| 0 <= p < q < i ==> spec_mode_le(v@[p], v@[q]),
        decreases n - i,
    {
        let mut j: usize = i;
        while j > 0 && mode_precedes(&v[j], &v[j - 1])
            invariant
                n == v@.len(),
                0 <= j <= i < n,
                v@.to_multiset() == orig.to_multiset(),
                orig.len() == v@.len(),
                forall|p: int, q: int|
                    0 <= p < q <= i && q != j ==> spec_mode_le(v@[p], v@[q]),
            decreases j,
        {
            let ghost before = v@;
            let a = v[j];
            let b = v[j - 1];
            v[j] = b;
            v[j - 1] = a;
            proof {
                assert(v@ == before.update(j as int, b).update(j - 1, a));
                lemma_swap_preserves_multiset(before, j as int);
            }
            j = j - 1;
        }
        proof {
            assert forall|p: int, q: int| 0 <= p < q <= i implies spec_mode_le(v@[p], v@[q]) by {
                if q == j {
                    if p < j - 1 {
                        assert(spec_mode_le(v@[p], v@[j - 1]));
                    }
                    assert(spec_mode_le(v@[j - 1], v@[j as int]));
                }
            }
        }
        i = i + 1;
    }
}

/// Whether some held mode carries the given identifier.
pub open spec fn spec_has_mode(s: Seq<OutputMode>, id: u64) -> bool {
    exists|i: int| 0 <= i < s.len() && s[i].id == id
}

/// The index of the mode with the given identifier; meaningful where the
/// identifier is held and, as in a well-formed head, held once.
pub open spec fn spec_mode_index_of(s: Seq<OutputMode>, id: u64) -> int {
    choose|i: int| 0 <= i < s.len() && s[i].id == id
}

/// Finds the first held mode with the given identifier.
pub fn find_mode_index(modes: &Vec<OutputMode>, id: u64) -> (r: Option<usize>)
    ensures
        r is Some <==> spec_has_mode(modes@, id),
        match r {
            Some(i) => 0 <= i < modes@.len() && modes@[i as int].id == id && forall|p: int|
                0 <= p < i ==> modes@[p].id != id,
            None => !spec_has_mode(modes@, id),
        },
{
    let mut k: usize = 0;
    while k < modes.len()
        invariant
            0 <= k <= modes@.len(),
            forall|p: int| 0 <= p < k ==> modes@[p].id != id,
        decreases modes@.len() - k,
    {
        if modes[k].id == id {
            return Some(k);
        }
        k = k + 1;
    }
    None
}

} // verus!
