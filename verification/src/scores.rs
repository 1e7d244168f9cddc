use itertools::Itertools;
use vstd::prelude::*;

verus! {

/// What a heard component is ranked by: a number that grows with its
/// intensity, then a number that grows with its frequency. The pair is compared
/// first by intensity and, where intensities are equal, by frequency.
pub type Loudness = (u32, u32);

/// `a` is strictly quieter than `b`.
pub open spec fn quieter(a: Loudness, b: Loudness) -> bool {
    a.0 < b.0 || (a.0 == b.0 && a.1 < b.1)
}

/// The component at position `i` comes before the one at position `j` when the
/// components are lined up from quietest to loudest. Equally loud components
/// keep the order of their positions.
pub open spec fn ranked_before(keys: Seq<Loudness>, i: int, j: int) -> bool {
    quieter(keys[i], keys[j]) || (keys[i] == keys[j] && i < j)
}

/// An entry that is handed to the sort: a position and the key found there.
pub open spec fn entry_before(a: (usize, Loudness), b: (usize, Loudness)) -> bool {
    quieter(a.1, b.1) || (a.1 == b.1 && a.0 < b.0)
}

/// The position `i` is one of `kept`.
pub open spec fn keeps(kept: Seq<usize>, i: int) -> bool {
    exists|a: int| 0 <= a < kept.len() && #[trigger] kept[a] == i
}

/// `kept` are the positions of the loudest components of `keys`, quietest
/// first, after the `skipped` quietest have been left out: the right number
/// of positions, in ascending rank, and every position that is left out ranks
/// before every position that is kept.
pub open spec fn is_loudest_selection(keys: Seq<Loudness>, skipped: int, kept: Seq<usize>) -> bool {
    &&& kept.len() == keys.len() - skipped
    &&& forall|a: int| 0 <= a < kept.len() ==> (#[trigger] kept[a]) < keys.len()
    &&& forall|a: int, b: int|
        0 <= a < b < kept.len() ==> #[trigger] ranked_before(keys, kept[a] as int, kept[b] as int)
    &&& forall|i: int, a: int|
        0 <= i < keys.len() && 0 <= a < kept.len() && !keeps(kept, i) ==> #[trigger] ranked_before(
            keys,
            i,
            kept[a] as int,
        )
}

/// Sorts entries by their key with `Itertools::sorted_by_key`, which collects
/// them into a vector and sorts it with the standard library's stable
/// `sort_by_key`.
///
/// Believed, not proved: the result holds the same entries as the input, and
/// they stand in ascending order of their keys, the pairs compared as tuples
/// are. The sort is stable and the entries come in with their positions
/// ascending, so two entries with the same key stay in the order of their
/// positions.
#[verifier::external_body]
fn sorted_by_loudness(entries: Vec<(usize, Loudness)>) -> (sorted: Vec<(usize, Loudness)>)
    requires
        forall|i: int| 0 <= i < entries.len() ==> (#[trigger] entries[i]).0 == i,
    ensures
        sorted@.to_multiset() == entries@.to_multiset(),
        forall|a: int, b: int|
            0 <= a < b < sorted.len() ==> entry_before(#[trigger] sorted[a], #[trigger] sorted[b]),
{
    entries.into_iter().sorted_by_key(|entry| entry.1).collect()
}

/// Pairs every key with its position.
fn with_positions(keys: &Vec<Loudness>) -> (entries: Vec<(usize, Loudness)>)
    ensures
        entries.len() == keys.len(),
        forall|i: int| 0 <= i < keys.len() ==> (#[trigger] entries[i]) == (i as usize, keys[i]),
{
    let mut entries: Vec<(usize, Loudness)> = Vec::new();
    let mut i: usize = 0;
    while i < keys.len()
        invariant
            i <= keys.len(),
            entries.len() == i,
            forall|k: int| 0 <= k < i ==> (#[trigger] entries[k]) == (k as usize, keys[k]),
        decreases keys.len() - i,
    {
        entries.push((i, keys[i]));
        i += 1;
    }
    entries
}

/// Some entry of `sorted` carries the position `i`.
spec fn holds_position(sorted: Seq<(usize, Loudness)>, i: int) -> bool {
    exists|p: int| 0 <= p < sorted.len() && (#[trigger] sorted[p]).0 == i
}

/// What the sort's contract means for entries that are keys with their
/// positions: the sorted entries are those same pairs, each position once.
proof fn lemma_sorted_entries(
    keys: Seq<Loudness>,
    entries: Seq<(usize, Loudness)>,
    sorted: Seq<(usize, Loudness)>,
)
    requires
        entries.len() == keys.len(),
        forall|i: int|
            0 <= i < keys.len() ==> (#[trigger] entries[i]).0 == i && entries[i].1 == keys[i],
        sorted.to_multiset() == entries.to_multiset(),
    ensures
        sorted.len() == keys.len(),
        forall|p: int|
            0 <= p < sorted.len() ==> (#[trigger] sorted[p]).0 < keys.len() && sorted[p].1
                == keys[sorted[p].0 as int],
        forall|i: int| 0 <= i < keys.len() ==> #[trigger] holds_position(sorted, i),
{
    broadcast use vstd::seq_lib::group_to_multiset_ensures;

    assert(sorted.len() == sorted.to_multiset().len());
    assert(entries.len() == entries.to_multiset().len());
    assert forall|p: int| 0 <= p < sorted.len() implies (#[trigger] sorted[p]).0 < keys.len()
        && sorted[p].1 == keys[sorted[p].0 as int] by {
        assert(sorted.contains(sorted[p]));
        assert(sorted.to_multiset().count(sorted[p]) > 0);
        assert(entries.contains(sorted[p]));
        let k = choose|k: int| 0 <= k < entries.len() && entries[k] == sorted[p];
        assert(entries[k].0 == k && entries[k].1 == keys[k]);
    }
    assert forall|i: int| 0 <= i < keys.len() implies #[trigger] holds_position(sorted, i) by {
        assert(entries.contains(entries[i]));
        assert(entries.to_multiset().count(entries[i]) > 0);
        assert(sorted.contains(entries[i]));
        let p = choose|p: int| 0 <= p < sorted.len() && sorted[p] == entries[i];
        assert(sorted[p].0 == i);
    }
}

/// Positions of the loudest components, quietest first, once the `skipped`
/// quietest have been left out. With `skipped` at or above the number of
/// components nothing is kept.
pub fn select_loudest(keys: &Vec<Loudness>, skipped: usize) -> (kept: Vec<usize>)
    ensures
        skipped <= keys.len() ==> is_loudest_selection(keys@, skipped as int, kept@),
        skipped > keys.len() ==> kept@.len() == 0,
{
    let entries = with_positions(keys);
    let sorted = sorted_by_loudness(entries);
    proof {
        lemma_sorted_entries(keys@, entries@, sorted@);
    }
    let mut kept: Vec<usize> = Vec::new();
    if skipped > sorted.len() {
        return kept;
    }
    let mut p: usize = skipped;
    while p < sorted.len()
        invariant
            skipped <= p <= sorted.len(),
            sorted.len() == keys.len(),
            kept.len() == p - skipped,
            forall|a: int| 0 <= a < kept.len() ==> (#[trigger] kept[a]) == sorted[skipped + a].0,
        decreases sorted.len() - p,
    {
        kept.push(sorted[p].0);
        p += 1;
    }
    proof {
        let ghost n = keys@.len() as int;
        assert forall|a: int, b: int| 0 <= a < b < kept.len() implies #[trigger] ranked_before(
            keys@,
            kept[a] as int,
            kept[b] as int,
        ) by {
            assert(entry_before(sorted[skipped + a], sorted[skipped + b]));
        }
        assert forall|i: int, a: int|
            0 <= i < n && 0 <= a < kept.len() && !keeps(kept@, i) implies #[trigger] ranked_before(
            keys@,
            i,
            kept[a] as int,
        ) by {
            assert(holds_position(sorted@, i));
            let q = choose|q: int| 0 <= q < sorted.len() && (#[trigger] sorted[q]).0 == i;
            if q >= skipped {
                assert(kept@[q - skipped] == i);
                assert(keeps(kept@, i));
            }
            assert(entry_before(sorted[q], sorted[skipped + a]));
        }
    }
    kept
}

/// Positions of the louder half of the components, quietest first. Of an odd
/// number of components the middle one is kept.
pub fn loudest_half(keys: &Vec<Loudness>) -> (kept: Vec<usize>)
    ensures
        is_loudest_selection(keys@, keys@.len() as int / 2, kept@),
{
    select_loudest(keys, keys.len() / 2)
}

/// `part` is the lower end of a selection whose upper end is `above`: its
/// positions are in ascending rank, none of them is in `above`, and every
/// position that is in neither ranks before every position of `part`.
spec fn is_lower_part(keys: Seq<Loudness>, part: Seq<usize>, above: Seq<usize>) -> bool {
    &&& forall|a: int| 0 <= a < part.len() ==> (#[trigger] part[a]) < keys.len()
    &&& forall|a: int| 0 <= a < part.len() ==> !keeps(above, #[trigger] part[a] as int)
    &&& forall|a: int, b: int|
        0 <= a < b < part.len() ==> #[trigger] ranked_before(keys, part[a] as int, part[b] as int)
    &&& forall|i: int, a: int|
        0 <= i < keys.len() && 0 <= a < part.len() && !keeps(part, i) && !keeps(above, i)
            ==> #[trigger] ranked_before(keys, i, part[a] as int)
}

/// Two lower parts of the same length under the same upper end are equal.
proof fn lemma_lower_part_unique(
    keys: Seq<Loudness>,
    first: Seq<usize>,
    second: Seq<usize>,
    above: Seq<usize>,
)
    requires
        first.len() == second.len(),
        is_lower_part(keys, first, above),
        is_lower_part(keys, second, above),
    ensures
        first == second,
    decreases first.len(),
{
    if first.len() == 0 {
        assert(first =~= second);
    } else {
        let last = first.len() - 1;
        let x = first[last];
        let y = second[last];
        if x != y {
            if ranked_before(keys, x as int, y as int) {
                if keeps(first, y as int) {
                    let a = choose|a: int| 0 <= a < first.len() && #[trigger] first[a] == y as int;
                    assert(a < last);
                    assert(ranked_before(keys, first[a] as int, first[last] as int));
                } else {
                    assert(ranked_before(keys, y as int, first[last] as int));
                }
            } else {
                if keeps(second, x as int) {
                    let a = choose|a: int|
                        0 <= a < second.len() && #[trigger] second[a] == x as int;
                    assert(a < last);
                    assert(ranked_before(keys, second[a] as int, second[last] as int));
                } else {
                    assert(ranked_before(keys, x as int, second[last] as int));
                }
            }
            assert(false);
        }
        let higher = above.push(x);
        lemma_lower_part_shrinks(keys, first, above);
        lemma_lower_part_shrinks(keys, second, above);
        lemma_lower_part_unique(keys, first.drop_last(), second.drop_last(), higher);
        assert(first =~= first.drop_last().push(x));
        assert(second =~= second.drop_last().push(y));
    }
}

/// Taking the highest position off a lower part and putting it with the
/// upper end leaves a lower part.
proof fn lemma_lower_part_shrinks(keys: Seq<Loudness>, part: Seq<usize>, above: Seq<usize>)
    requires
        part.len() > 0,
        is_lower_part(keys, part, above),
    ensures
        is_lower_part(keys, part.drop_last(), above.push(part.last())),
{
    let rest = part.drop_last();
    let top = part.last();
    let higher = above.push(top);
    let last = part.len() - 1;
    assert forall|a: int| 0 <= a < rest.len() implies !keeps(higher, #[trigger] rest[a] as int) by {
        assert(rest[a] == part[a]);
        assert(ranked_before(keys, part[a] as int, part[last] as int));
        if keeps(higher, rest[a] as int) {
            let b = choose|b: int| 0 <= b < higher.len() && #[trigger] higher[b] == rest[a] as int;
            if b < above.len() {
                assert(above[b] == higher[b]);
                assert(keeps(above, part[a] as int));
            }
        }
    }
    assert forall|a: int, b: int| 0 <= a < b < rest.len() implies #[trigger] ranked_before(
        keys,
        rest[a] as int,
        rest[b] as int,
    ) by {
        assert(ranked_before(keys, part[a] as int, part[b] as int));
    }
    assert forall|i: int, a: int|
        0 <= i < keys.len() && 0 <= a < rest.len() && !keeps(rest, i) && !keeps(
            higher,
            i,
        ) implies #[trigger] ranked_before(keys, i, rest[a] as int) by {
        assert(higher[above.len() as int] == top);
        assert(i != top);
        if keeps(part, i) {
            let b = choose|b: int| 0 <= b < part.len() && #[trigger] part[b] == i;
            assert(b < last);
            assert(rest[b] == i);
            assert(keeps(rest, i));
        }
        if keeps(above, i) {
            let b = choose|b: int| 0 <= b < above.len() && #[trigger] above[b] == i;
            assert(higher[b] == i);
            assert(keeps(higher, i));
        }
        assert(ranked_before(keys, i, part[a] as int));
    }
}

/// What `select_loudest` promises leaves no choice: two selections from the
/// same components that leave out the same number of them are the same
/// positions in the same order.
pub proof fn lemma_selection_is_unique(
    keys: Seq<Loudness>,
    skipped: int,
    first: Seq<usize>,
    second: Seq<usize>,
)
    requires
        is_loudest_selection(keys, skipped, first),
        is_loudest_selection(keys, skipped, second),
    ensures
        first == second,
{
    let above = Seq::<usize>::empty();
    assert forall|i: int| !keeps(above, i) by {}
    assert(is_lower_part(keys, first, above));
    assert(is_lower_part(keys, second, above));
    lemma_lower_part_unique(keys, first, second, above);
}

/// No component that is left out is louder than one that is kept.
pub proof fn lemma_selection_keeps_the_loudest(
    keys: Seq<Loudness>,
    skipped: int,
    kept: Seq<usize>,
    i: int,
    a: int,
)
    requires
        is_loudest_selection(keys, skipped, kept),
        0 <= i < keys.len(),
        0 <= a < kept.len(),
        !keeps(kept, i),
    ensures
        !quieter(keys[kept[a] as int], keys[i]),
{
    assert(ranked_before(keys, i, kept[a] as int));
}

/// Number of scores in an octave.
pub const OCTAVE_LEN: usize = 12;

/// The octave of a table of `len` scores that position `i` lies in: its first
/// position, and the position one past its last. The last octave of the table
/// ends where the table ends, and may be shorter than the others.
pub open spec fn octave_of(i: int, len: int) -> (int, int) {
    let first = i - i % 12;
    (first, if first + 12 <= len { first + 12 } else { len })
}

/// For the score at position `i` of a table of `len` scores, the two
/// positions that its octave is levelled between: the first position of its
/// own octave and the first position of the next. `None` where the table ends
/// before the next octave begins.
pub fn octave_anchors(i: usize, len: usize) -> (anchors: Option<(usize, usize)>)
    ensures
        anchors is Some <==> i - i % 12 + 12 < len,
        anchors matches Some((low, high)) ==> low == i - i % 12 && high == low + 12,
{
    let low: usize = i - i % OCTAVE_LEN;
    if len > OCTAVE_LEN && low < len - OCTAVE_LEN {
        Some((low, low + OCTAVE_LEN))
    } else {
        None
    }
}

/// The octaves of a table of `len` scores, lowest first, each as its first
/// position and the position one past its last.
pub fn octave_bands(len: usize) -> (bands: Vec<(usize, usize)>)
    ensures
        bands.len() == (len + 11) / 12,
        forall|b: int|
            0 <= b < bands.len() ==> (#[trigger] bands[b]).0 == 12 * b && bands[b].1 == (if 12 * b
                + 12 <= len {
                12 * b + 12
            } else {
                len as int
            }),
{
    let mut bands: Vec<(usize, usize)> = Vec::new();
    let mut first: usize = 0;
    while first < len
        invariant
            first % 12 == 0,
            first <= len + 11,
            bands.len() == first / 12,
            first >= len ==> bands.len() == (len + 11) / 12,
            forall|b: int|
                0 <= b < bands.len() ==> (#[trigger] bands[b]).0 == 12 * b && bands[b].1 == (if 12
                    * b + 12 <= len {
                    12 * b + 12
                } else {
                    len as int
                }),
        decreases len + 11 - first,
    {
        if len - first >= OCTAVE_LEN {
            bands.push((first, first + OCTAVE_LEN));
            first += OCTAVE_LEN;
        } else {
            bands.push((first, len));
            return bands;
        }
    }
    bands
}

/// The octaves of a table split it: every position lies in exactly one
/// octave, the one numbered by a twelfth of the position, and that octave is
/// not empty and no longer than twelve positions.
pub proof fn lemma_octaves_split_table(i: int, len: int)
    requires
        0 <= i < len,
    ensures
        octave_of(i, len).0 == 12 * (i / 12),
        octave_of(i, len).0 <= i < octave_of(i, len).1 <= len,
        octave_of(i, len).1 - octave_of(i, len).0 <= 12,
        forall|j: int|
            0 <= j < len ==> (octave_of(j, len) == octave_of(i, len) <==> j / 12 == i / 12),
{
}

} // verus!
