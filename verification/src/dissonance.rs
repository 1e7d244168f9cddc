use vstd::prelude::*;

verus! {

/// Number of harmonics that the instrument sounds on each side of the played
/// pitch.
pub const HARMONIC_COUNT: usize = 300;

/// Number of components in the sound of one played note.
pub const FC: usize = HARMONIC_COUNT * 2 + 1;

/// One component of the sound of a played note, told by how its frequency
/// relates to the pitch `f` that is played.
///
/// The component's intensity is one over its factor, and 1 for the
/// fundamental.
#[derive(Clone, Copy, Debug, PartialEq, Eq, Structural)]
pub enum Partial {
    /// The frequency `f / k`, for the factor `k` held here.
    Undertone(usize),
    /// The played pitch itself.
    Fundamental,
    /// The frequency `f * k`, for the factor `k` held here.
    Overtone(usize),
}

impl Partial {
    /// The number the pitch is divided or multiplied by.
    pub open spec fn factor(self) -> int {
        match self {
            Partial::Undertone(k) => k as int,
            Partial::Fundamental => 1,
            Partial::Overtone(k) => k as int,
        }
    }

    /// The component's frequency over the played pitch, as a fraction:
    /// numerator, then denominator.
    pub open spec fn ratio(self) -> (int, int) {
        match self {
            Partial::Undertone(k) => (1, k as int),
            Partial::Fundamental => (1, 1),
            Partial::Overtone(k) => (k as int, 1),
        }
    }

    /// This component sounds strictly lower than `other`, for the same played
    /// pitch.
    pub open spec fn lower_than(self, other: Partial) -> bool {
        self.ratio().0 * other.ratio().1 < other.ratio().0 * self.ratio().1
    }
}

/// The component that stands at `slot` in the sound of a note with
/// `harmonics` harmonics on each side: undertones from the lowest up, the
/// fundamental in the middle, then overtones from the lowest up.
pub open spec fn partial_at(harmonics: int, slot: int) -> Partial
    recommends
        0 <= slot <= 2 * harmonics,
{
    if slot < harmonics {
        Partial::Undertone((harmonics + 1 - slot) as usize)
    } else if slot == harmonics {
        Partial::Fundamental
    } else {
        Partial::Overtone((slot + 1 - harmonics) as usize)
    }
}

/// The component at `slot`, or `None` where the sound has no such slot.
pub fn harmonic_partial(harmonics: usize, slot: usize) -> (partial: Option<Partial>)
    requires
        harmonics < usize::MAX,
    ensures
        partial is Some <==> slot <= 2 * harmonics,
        partial matches Some(p) ==> p == partial_at(harmonics as int, slot as int),
        partial matches Some(p) ==> 1 <= p.factor() <= harmonics + 1,
{
    if slot < harmonics {
        Some(Partial::Undertone(harmonics - slot + 1))
    } else if slot == harmonics {
        Some(Partial::Fundamental)
    } else if slot - harmonics <= harmonics {
        Some(Partial::Overtone(slot - harmonics + 1))
    } else {
        None
    }
}

/// All components of the sound of a note, lowest first.
pub fn harmonic_series(harmonics: usize) -> (series: Vec<Partial>)
    requires
        2 * harmonics + 1 <= usize::MAX,
    ensures
        series.len() == 2 * harmonics + 1,
        forall|slot: int|
            0 <= slot < series.len() ==> (#[trigger] series[slot]) == partial_at(
                harmonics as int,
                slot,
            ),
{
    let count: usize = 2 * harmonics + 1;
    let mut series: Vec<Partial> = Vec::new();
    let mut slot: usize = 0;
    while slot < count
        invariant
            count == 2 * harmonics + 1,
            slot <= count,
            series.len() == slot,
            forall|k: int|
                0 <= k < slot ==> (#[trigger] series[k]) == partial_at(harmonics as int, k),
        decreases count - slot,
    {
        match harmonic_partial(harmonics, slot) {
            Some(partial) => series.push(partial),
            None => {},
        }
        slot += 1;
    }
    series
}

/// The sound of a note holds its pitch once, in the middle slot, and for every
/// factor `k` from 2 to `harmonics + 1` the undertone and the overtone of that
/// factor once each, at the slots `harmonics + 1 - k` and `harmonics - 1 + k`.
pub proof fn lemma_series_holds_each_harmonic_once(harmonics: int, slot: int, k: int)
    requires
        0 <= harmonics < usize::MAX,
        0 <= slot <= 2 * harmonics,
        2 <= k <= harmonics + 1,
    ensures
        partial_at(harmonics, slot) is Fundamental <==> slot == harmonics,
        partial_at(harmonics, slot) == Partial::Undertone(k as usize) <==> slot == harmonics + 1
            - k,
        partial_at(harmonics, slot) == Partial::Overtone(k as usize) <==> slot == harmonics - 1
            + k,
{
}

/// The sound of a note holds nothing but its pitch and the harmonics of the
/// factors 2 to `harmonics + 1`.
pub proof fn lemma_series_holds_nothing_else(harmonics: int, slot: int)
    requires
        0 <= harmonics < usize::MAX,
        0 <= slot <= 2 * harmonics,
    ensures
        partial_at(harmonics, slot) is Fundamental || 2 <= partial_at(harmonics, slot).factor()
            <= harmonics + 1,
{
}

/// The components of a note stand in strictly ascending frequency.
pub proof fn lemma_series_ascends(harmonics: int, low: int, high: int)
    requires
        0 <= harmonics < usize::MAX,
        0 <= low < high <= 2 * harmonics,
    ensures
        partial_at(harmonics, low).lower_than(partial_at(harmonics, high)),
{
    let a = partial_at(harmonics, low).ratio();
    let b = partial_at(harmonics, high).ratio();
    assert(a.0 >= 1 && a.1 >= 1 && b.0 >= 1 && b.1 >= 1);
    assert(a.0 * b.1 < b.0 * a.1) by (nonlinear_arith)
        requires
            a.0 >= 1 && a.1 >= 1 && b.0 >= 1 && b.1 >= 1,
            a.0 == 1 || a.1 == 1,
            b.0 == 1 || b.1 == 1,
            a.0 < b.0 || a.1 > b.1,
            a.0 <= b.0,
            a.1 >= b.1,
    ;
}

} // verus!
