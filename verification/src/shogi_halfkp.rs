//! Sparse HalfKP inputs for Shogi.
use crate::feature_pair::FeaturePair;
use crate::text::{decimal, decimal_chars, is_digit, lemma_decimal_prefix};
use std::marker::PhantomData;
use vstd::prelude::*;

verus! {

/// Submitter required interface for HalfKP samples.
pub trait ShogiHalfKPSample {
    /// Returns the active feature indices for the side to move.
    fn stm_features(&self) -> &[u32];

    /// Returns the active feature indices for the opponent.
    fn ntm_features(&self) -> &[u32];
}

/// What takes the pairs of active features, one after the other.
pub trait FeatureSink {
    /// What the pairs go to.
    type Receiver;

    /// What the pairs of this sink go to.
    spec fn receiver(&self) -> Self::Receiver;

    /// The pairs received so far, in order.
    spec fn received(&self) -> Seq<(usize, usize)>;

    /// Whether the sink is consistent with what it received.
    spec fn wf(&self) -> bool;

    /// Whether a pair may be handed to `receiver`.
    spec fn admits(receiver: Self::Receiver, pair: (usize, usize)) -> bool;

    /// Receives one pair.
    fn accept(&mut self, pair: FeaturePair)
        requires
            old(self).wf(),
            Self::admits(old(self).receiver(), pair@),
        ensures
            final(self).wf(),
            final(self).receiver() == old(self).receiver(),
            final(self).received() == old(self).received().push(pair@),
    ;
}

impl FeatureSink for Vec<FeaturePair> {
    type Receiver = ();

    open spec fn receiver(&self) -> () {
        ()
    }

    open spec fn received(&self) -> Seq<(usize, usize)> {
        self@.map_values(|pair: FeaturePair| pair@)
    }

    open spec fn wf(&self) -> bool {
        true
    }

    open spec fn admits(receiver: (), pair: (usize, usize)) -> bool {
        true
    }

    fn accept(&mut self, pair: FeaturePair) {
        self.push(pair);
        assert(self.received() =~= old(self).received().push(pair@));
    }
}

/// A sink that calls a function with each pair that it receives.
pub struct Callback<F> {
    f: F,
    log: Ghost<Seq<(usize, usize)>>,
}

impl<F: FnMut(usize, usize)> Callback<F> {
    fn new(f: F) -> (r: Self)
        ensures
            r.wf(),
            r.receiver() == f,
            r.received() == Seq::<(usize, usize)>::empty(),
    {
        Callback { f, log: Ghost(Seq::empty()) }
    }
}

impl<F: FnMut(usize, usize)> FeatureSink for Callback<F> {
    type Receiver = F;

    closed spec fn receiver(&self) -> F {
        self.f
    }

    closed spec fn received(&self) -> Seq<(usize, usize)> {
        self.log@
    }

    closed spec fn wf(&self) -> bool {
        forall|i: int| 0 <= i < self.log@.len() ==> call_ensures(self.f, #[trigger] self.log@[i], ())
    }

    open spec fn admits(receiver: F, pair: (usize, usize)) -> bool {
        call_requires(receiver, pair)
    }

    fn accept(&mut self, pair: FeaturePair) {
        let ghost taken = pair@;
        pair.hand_to(&mut self.f);
        self.log = Ghost(self.log@.push(taken));
    }
}

/// Sparse input definition for Shogi HalfKP.
#[derive(Debug)]
pub struct ShogiHalfKPInputs<S> {
    plane_count: usize,
    king_square_count: usize,
    max_active: usize,
    horizontally_mirrored: bool,
    marker: PhantomData<S>,
}

/// What a [`ShogiHalfKPInputs`] holds.
pub ghost struct HalfKPView {
    pub planes: nat,
    pub king_squares: nat,
    pub max_active: nat,
    pub mirrored: bool,
}

/// Why a sample does not fit the inputs.
#[derive(Clone, Copy, Debug, PartialEq, Eq, Structural)]
pub enum HalfKPError {
    /// The two sides have different numbers of active features.
    LengthMismatch,
    /// More features are active than the inputs allow.
    TooManyActive,
    /// There are more inputs than can be counted.
    DimensionOverflow,
    /// A feature index is not below the number of inputs.
    IndexOutOfRange,
}

impl HalfKPError {
    /// What went wrong, in words.
    pub fn message(&self) -> (r: &'static str)
        ensures
            r@ == match *self {
                HalfKPError::LengthMismatch => "HalfKP feature lengths must match"@,
                HalfKPError::TooManyActive => "HalfKP feature count exceeded max_active"@,
                HalfKPError::DimensionOverflow => "HalfKP input dimension overflow"@,
                HalfKPError::IndexOutOfRange => "HalfKP index out of range"@,
            },
    {
        match self {
            HalfKPError::LengthMismatch => "HalfKP feature lengths must match",
            HalfKPError::TooManyActive => "HalfKP feature count exceeded max_active",
            HalfKPError::DimensionOverflow => "HalfKP input dimension overflow",
            HalfKPError::IndexOutOfRange => "HalfKP index out of range",
        }
    }
}

/// Whether every index is below `limit`.
pub open spec fn all_below(features: Seq<u32>, limit: nat) -> bool {
    forall|i: int| 0 <= i < features.len() ==> #[trigger] features[i] < limit
}

/// The features of both sides, paired in order.
pub open spec fn paired(stm: Seq<u32>, ntm: Seq<u32>) -> Seq<(usize, usize)> {
    Seq::new(stm.len(), |i: int| (stm[i] as usize, ntm[i] as usize))
}

/// Whether both indices of pair `i` are below `limit`.
pub open spec fn pair_fits(stm: Seq<u32>, ntm: Seq<u32>, limit: nat, i: int) -> bool {
    stm[i] < limit && ntm[i] < limit
}

/// Of the first `n` pairs, how many come before the first one with an index that is not below
/// `limit`.
pub open spec fn fitting(stm: Seq<u32>, ntm: Seq<u32>, limit: nat, n: nat) -> nat
    decreases n,
{
    if n == 0 {
        0
    } else {
        let before = fitting(stm, ntm, limit, (n - 1) as nat);
        if before == n - 1 && pair_fits(stm, ntm, limit, n - 1) {
            n
        } else {
            before
        }
    }
}

impl HalfKPView {
    /// The number of inputs.
    pub open spec fn dimension(self) -> nat {
        self.planes * self.king_squares
    }

    /// The first reason, in the order in which they are looked for, why features do not fit.
    pub open spec fn fault(self, stm: Seq<u32>, ntm: Seq<u32>) -> Option<HalfKPError> {
        if stm.len() != ntm.len() {
            Some(HalfKPError::LengthMismatch)
        } else if stm.len() > self.max_active {
            Some(HalfKPError::TooManyActive)
        } else if self.dimension() > usize::MAX {
            Some(HalfKPError::DimensionOverflow)
        } else if !all_below(stm, self.dimension()) || !all_below(ntm, self.dimension()) {
            Some(HalfKPError::IndexOutOfRange)
        } else {
            None
        }
    }

    /// The pairs that `map_features` hands out, in order: all of them where the features fit, those
    /// before the first index out of range where one is, and none where the features do not fit
    /// for another reason.
    pub open spec fn handed_out(self, stm: Seq<u32>, ntm: Seq<u32>) -> Seq<(usize, usize)> {
        match self.fault(stm, ntm) {
            None => paired(stm, ntm),
            Some(HalfKPError::IndexOutOfRange) => paired(stm, ntm).take(
                fitting(stm, ntm, self.dimension(), stm.len()) as int,
            ),
            Some(_) => seq![],
        }
    }

    /// The short name of the inputs.
    pub open spec fn shorthand(self) -> Seq<char> {
        let size = decimal_chars(self.planes) + "x"@ + decimal_chars(self.king_squares);
        if self.mirrored {
            size + "hm"@
        } else {
            size
        }
    }

    /// The long name of the inputs.
    pub open spec fn description(self) -> Seq<char> {
        "Shogi HalfKP inputs (plane_count="@ + decimal_chars(self.planes) + ", king_squares="@
            + decimal_chars(self.king_squares) + ", hm="@ + (if self.mirrored {
            "true"@
        } else {
            "false"@
        }) + ")"@
    }
}

impl<S> View for ShogiHalfKPInputs<S> {
    type V = HalfKPView;

    closed spec fn view(&self) -> HalfKPView {
        HalfKPView {
            planes: self.plane_count as nat,
            king_squares: self.king_square_count as nat,
            max_active: self.max_active as nat,
            mirrored: self.horizontally_mirrored,
        }
    }
}

impl<S> ShogiHalfKPInputs<S> {
    /// Inputs of `plane_count` planes for each of `king_square_count` king squares, with at most
    /// `max_active` active at once.
    #[must_use]
    pub fn new(
        plane_count: usize,
        king_square_count: usize,
        max_active: usize,
        horizontally_mirrored: bool,
    ) -> (r: Self)
        ensures
            r@ == (HalfKPView {
                planes: plane_count as nat,
                king_squares: king_square_count as nat,
                max_active: max_active as nat,
                mirrored: horizontally_mirrored,
            }),
    {
        ShogiHalfKPInputs {
            plane_count,
            king_square_count,
            max_active,
            horizontally_mirrored,
            marker: PhantomData,
        }
    }

    /// Planes per king square.
    #[must_use]
    pub fn plane_count(&self) -> (r: usize)
        ensures
            r == self@.planes,
    {
        self.plane_count
    }

    /// King squares.
    #[must_use]
    pub fn king_square_count(&self) -> (r: usize)
        ensures
            r == self@.king_squares,
    {
        self.king_square_count
    }

    /// Whether positions are mirrored horizontally.
    #[must_use]
    pub fn horizontally_mirrored(&self) -> (r: bool)
        ensures
            r == self@.mirrored,
    {
        self.horizontally_mirrored
    }

    /// The number of inputs.
    pub fn num_inputs(&self) -> (r: usize)
        requires
            self@.dimension() <= usize::MAX,
        ensures
            r == self@.dimension(),
            r == self@.planes * self@.king_squares,
    {
        assert(self.plane_count * self.king_square_count >= 0) by (nonlinear_arith);
        self.plane_count * self.king_square_count
    }

    /// Inputs that may be active at once.
    pub fn max_active(&self) -> (r: usize)
        ensures
            r == self@.max_active,
    {
        self.max_active
    }

    /// The short name of the inputs.
    pub fn shorthand(&self) -> (r: String)
        ensures
            r@ == self@.shorthand(),
            r@ == decimal_chars(self@.planes) + "x"@ + decimal_chars(self@.king_squares) + (
            if self@.mirrored {
                "hm"@
            } else {
                Seq::<char>::empty()
            }),
    {
        let mut text = decimal(self.plane_count);
        text.append("x");
        text.append(decimal(self.king_square_count).as_str());
        if self.horizontally_mirrored {
            text.append("hm");
        }
        text
    }

    /// The long name of the inputs.
    pub fn description(&self) -> (r: String)
        ensures
            r@ == self@.description(),
            r@ == "Shogi HalfKP inputs (plane_count="@ + decimal_chars(self@.planes)
                + ", king_squares="@ + decimal_chars(self@.king_squares) + ", hm="@ + (
            if self@.mirrored {
                "true"@
            } else {
                "false"@
            }) + ")"@,
    {
        let mut text = "Shogi HalfKP inputs (plane_count=".to_owned();
        text.append(decimal(self.plane_count).as_str());
        text.append(", king_squares=");
        text.append(decimal(self.king_square_count).as_str());
        text.append(", hm=");
        if self.horizontally_mirrored {
            text.append("true");
        } else {
            text.append("false");
        }
        text.append(")");
        text
    }

    /// Whether the features of a sample fit the inputs, or the first reason why not.
    pub fn check_features(&self, stm: &[u32], ntm: &[u32]) -> (r: Result<(), HalfKPError>)
        ensures
            match self@.fault(stm@, ntm@) {
                None => r == Ok::<(), HalfKPError>(()),
                Some(e) => r == Err::<(), HalfKPError>(e),
            },
    {
        let (_, verdict) = self.hand_out(stm, ntm);
        verdict
    }
}

impl<S> ShogiHalfKPInputs<S> {
    /// The active features of both sides, paired in order, or the first reason why they do not fit
    /// the inputs.
    pub fn pair_features(&self, stm: &[u32], ntm: &[u32]) -> (r: Result<
        Vec<(usize, usize)>,
        HalfKPError,
    >)
        ensures
            match self@.fault(stm@, ntm@) {
                None => r is Ok && r->Ok_0@ == paired(stm@, ntm@),
                Some(e) => r is Err && r->Err_0 == e,
            },
    {
        let (pairs, verdict) = self.hand_out(stm, ntm);
        match verdict {
            Ok(_) => Ok(pairs),
            Err(e) => Err(e),
        }
    }

    /// The pairs of active features that are handed out, in order, and whether the features fit
    /// the inputs, or the first reason why not.
    pub fn hand_out(&self, stm: &[u32], ntm: &[u32]) -> (r: (
        Vec<(usize, usize)>,
        Result<(), HalfKPError>,
    ))
        ensures
            r.0@ == self@.handed_out(stm@, ntm@),
            r.0.len() <= stm.len(),
            forall|i: int|
                0 <= i < r.0.len() ==> (#[trigger] r.0@[i]).0 == stm@[i] && r.0@[i].1 == ntm@[i],
            r.1 is Ok ==> r.0.len() == stm.len() == ntm.len(),
            match self@.fault(stm@, ntm@) {
                None => r.1 == Ok::<(), HalfKPError>(()),
                Some(e) => r.1 == Err::<(), HalfKPError>(e),
            },
    {
        let mut pairs: Vec<(usize, usize)> = Vec::new();
        if stm.len() != ntm.len() {
            return (pairs, Err(HalfKPError::LengthMismatch));
        }
        if stm.len() > self.max_active {
            return (pairs, Err(HalfKPError::TooManyActive));
        }
        let limit: usize = match self.plane_count.checked_mul(self.king_square_count) {
            Some(limit) => limit,
            None => {
                return (pairs, Err(HalfKPError::DimensionOverflow));
            },
        };
        let mut i: usize = 0;
        while i < stm.len()
            invariant
                i <= stm.len(),
                stm.len() == ntm.len(),
                limit == self@.dimension(),
                stm.len() <= self@.max_active,
                fitting(stm@, ntm@, limit as nat, i as nat) == i,
                forall|j: int| 0 <= j < i ==> #[trigger] stm@[j] < limit,
                forall|j: int| 0 <= j < i ==> #[trigger] ntm@[j] < limit,
                pairs@ == paired(stm@, ntm@).take(i as int),
            decreases stm.len() - i,
        {
            let a: usize = stm[i] as usize;
            let b: usize = ntm[i] as usize;
            if a >= limit || b >= limit {
                proof {
                    lemma_fitting_stops(stm@, ntm@, limit as nat, i as nat, stm@.len());
                }
                return (pairs, Err(HalfKPError::IndexOutOfRange));
            }
            pairs.push((a, b));
            i = i + 1;
            assert(pairs@ =~= paired(stm@, ntm@).take(i as int));
        }
        assert(pairs@ =~= paired(stm@, ntm@));
        (pairs, Ok(()))
    }
}

impl<S> Clone for ShogiHalfKPInputs<S> {
    fn clone(&self) -> (r: Self)
        ensures
            r@ == self@,
    {
        ShogiHalfKPInputs {
            plane_count: self.plane_count,
            king_square_count: self.king_square_count,
            max_active: self.max_active,
            horizontally_mirrored: self.horizontally_mirrored,
            marker: PhantomData,
        }
    }
}

impl<S: ShogiHalfKPSample> ShogiHalfKPInputs<S> {
    /// Hands each pair of active features of `sample` to `sink`, in order, once, up to the first
    /// index out of range, and nothing else. Tells why, where the features do not fit the inputs.
    pub fn map_features_into<K: FeatureSink>(&self, sample: &S, sink: &mut K) -> (r: Result<
        (),
        HalfKPError,
    >)
        requires
            old(sink).wf(),
            forall|stm: &[u32], ntm: &[u32], i: int|
                #[trigger] call_ensures(S::stm_features, (sample,), stm)
                    && #[trigger] call_ensures(S::ntm_features, (sample,), ntm) && 0 <= i
                    < self@.handed_out(stm@, ntm@).len() ==> K::admits(
                    old(sink).receiver(),
                    #[trigger] self@.handed_out(stm@, ntm@)[i],
                ),
        ensures
            final(sink).wf(),
            final(sink).receiver() == old(sink).receiver(),
            exists|stm: &[u32], ntm: &[u32]|
                {
                    &&& #[trigger] call_ensures(S::stm_features, (sample,), stm)
                    &&& #[trigger] call_ensures(S::ntm_features, (sample,), ntm)
                    &&& match self@.fault(stm@, ntm@) {
                        Some(e) => r == Err::<(), HalfKPError>(e),
                        None => r == Ok::<(), HalfKPError>(()),
                    }
                    &&& final(sink).received() == old(sink).received() + self@.handed_out(
                        stm@,
                        ntm@,
                    )
                },
    {
        let stm = sample.stm_features();
        let ntm = sample.ntm_features();
        let ghost handed = self@.handed_out(stm@, ntm@);
        let (pairs, verdict) = self.hand_out(stm, ntm);
        let mut i: usize = 0;
        assert(handed.take(0) =~= Seq::empty());
        while i < pairs.len()
            invariant
                i <= pairs.len(),
                pairs@ == handed,
                sink.wf(),
                sink.receiver() == old(sink).receiver(),
                sink.received() == old(sink).received() + handed.take(i as int),
                forall|j: int|
                    0 <= j < handed.len() ==> K::admits(
                        old(sink).receiver(),
                        #[trigger] handed[j],
                    ),
            decreases pairs.len() - i,
        {
            let (a, b) = pairs[i];
            assert(handed[i as int] == (a, b));
            sink.accept(FeaturePair::new(a, b));
            i = i + 1;
            assert(handed.take(i as int) =~= handed.take(i - 1).push((a, b)));
        }
        assert(handed.take(i as int) =~= handed);
        verdict
    }

    /// Calls `f` with each pair of active features of `sample`, in order, up to the first index out
    /// of range, and with nothing else. Tells why, where the features do not fit the inputs. The
    /// contract fixes which pairs `f` gets; their order and number are those of
    /// [`Self::map_features_into`], which `f` stands behind.
    pub fn map_features<F: FnMut(usize, usize)>(&self, sample: &S, f: F) -> (r: Result<
        (),
        HalfKPError,
    >)
        requires
            forall|stm: &[u32], ntm: &[u32], i: int|
                #[trigger] call_ensures(S::stm_features, (sample,), stm)
                    && #[trigger] call_ensures(S::ntm_features, (sample,), ntm) && 0 <= i
                    < self@.handed_out(stm@, ntm@).len() ==> call_requires(
                    f,
                    #[trigger] self@.handed_out(stm@, ntm@)[i],
                ),
        ensures
            exists|stm: &[u32], ntm: &[u32]|
                {
                    &&& #[trigger] call_ensures(S::stm_features, (sample,), stm)
                    &&& #[trigger] call_ensures(S::ntm_features, (sample,), ntm)
                    &&& match self@.fault(stm@, ntm@) {
                        Some(e) => r == Err::<(), HalfKPError>(e),
                        None => r == Ok::<(), HalfKPError>(()),
                    }
                    &&& forall|i: int|
                        0 <= i < self@.handed_out(stm@, ntm@).len() ==> call_ensures(
                            f,
                            #[trigger] self@.handed_out(stm@, ntm@)[i],
                            (),
                        )
                },
    {
        let mut sink = Callback::new(f);
        let verdict = self.map_features_into(sample, &mut sink);
        proof {
            let (stm, ntm) = choose|stm: &[u32], ntm: &[u32]|
                {
                    &&& #[trigger] call_ensures(S::stm_features, (sample,), stm)
                    &&& #[trigger] call_ensures(S::ntm_features, (sample,), ntm)
                    &&& match self@.fault(stm@, ntm@) {
                        Some(e) => verdict == Err::<(), HalfKPError>(e),
                        None => verdict == Ok::<(), HalfKPError>(()),
                    }
                    &&& sink.received() == Seq::<(usize, usize)>::empty() + self@.handed_out(
                        stm@,
                        ntm@,
                    )
                };
            assert(sink.received() =~= self@.handed_out(stm@, ntm@));
            assert forall|i: int| 0 <= i < self@.handed_out(stm@, ntm@).len() implies call_ensures(
                f,
                #[trigger] self@.handed_out(stm@, ntm@)[i],
                (),
            ) by {
                assert(call_ensures(sink.f, sink.log@[i], ()));
            }
        }
        verdict
    }
}

proof fn lemma_fitting_stops(stm: Seq<u32>, ntm: Seq<u32>, limit: nat, k: nat, n: nat)
    requires
        k < n,
        fitting(stm, ntm, limit, k) == k,
        !pair_fits(stm, ntm, limit, k as int),
    ensures
        fitting(stm, ntm, limit, n) == k,
    decreases n,
{
    if k + 1 < n {
        lemma_fitting_stops(stm, ntm, limit, k, (n - 1) as nat);
    }
}

proof fn lemma_fitting(stm: Seq<u32>, ntm: Seq<u32>, limit: nat, n: nat)
    ensures
        fitting(stm, ntm, limit, n) <= n,
        forall|i: int|
            0 <= i < fitting(stm, ntm, limit, n) ==> #[trigger] pair_fits(stm, ntm, limit, i),
        fitting(stm, ntm, limit, n) < n ==> !pair_fits(
            stm,
            ntm,
            limit,
            fitting(stm, ntm, limit, n) as int,
        ),
    decreases n,
{
    if n > 0 {
        lemma_fitting(stm, ntm, limit, (n - 1) as nat);
    }
}

/// Where an index is out of range, the pairs that `map_features` hands out are those before the
/// first one with such an index.
pub proof fn lemma_handed_out_stops_at_misfit(
    inputs: HalfKPView,
    stm: Seq<u32>,
    ntm: Seq<u32>,
    k: int,
)
    requires
        inputs.fault(stm, ntm) == Some(HalfKPError::IndexOutOfRange),
        0 <= k < stm.len(),
        !pair_fits(stm, ntm, inputs.dimension(), k),
        forall|i: int| 0 <= i < k ==> #[trigger] pair_fits(stm, ntm, inputs.dimension(), i),
    ensures
        inputs.handed_out(stm, ntm) == paired(stm, ntm).take(k),
{
    lemma_fitting(stm, ntm, inputs.dimension(), stm.len());
    let count = fitting(stm, ntm, inputs.dimension(), stm.len()) as int;
    if count < k {
        assert(pair_fits(stm, ntm, inputs.dimension(), count));
    }
    if k < count {
        assert(pair_fits(stm, ntm, inputs.dimension(), k));
    }
}

/// When each fault comes: features of different lengths first, then too many of them, then too
/// many inputs, then an index that is not below their number.
pub proof fn lemma_fault_in_order(inputs: HalfKPView, stm: Seq<u32>, ntm: Seq<u32>)
    ensures
        ({
            let fault = inputs.fault(stm, ntm);
            let matched = stm.len() == ntm.len();
            let few = stm.len() <= inputs.max_active;
            let limit = inputs.planes * inputs.king_squares;
            let counted = limit <= usize::MAX;
            let outside = exists|i: int|
                0 <= i < stm.len() && (#[trigger] stm[i] >= limit || ntm[i] >= limit);
            &&& fault == Some(HalfKPError::LengthMismatch) <==> !matched
            &&& fault == Some(HalfKPError::TooManyActive) <==> matched && !few
            &&& fault == Some(HalfKPError::DimensionOverflow) <==> matched && few && !counted
            &&& fault == Some(HalfKPError::IndexOutOfRange) <==> matched && few && counted
                && outside
            &&& fault is None <==> matched && few && counted && !outside
        }),
{
    let limit = inputs.planes * inputs.king_squares;
    let outside = exists|i: int|
        0 <= i < stm.len() && (#[trigger] stm[i] >= limit || ntm[i] >= limit);
    if stm.len() == ntm.len() {
        if !all_below(stm, limit) {
            let i = choose|i: int| 0 <= i < stm.len() && !(#[trigger] stm[i] < limit);
            assert(stm[i] >= limit);
            assert(outside);
        } else if !all_below(ntm, limit) {
            let i = choose|i: int| 0 <= i < ntm.len() && !(#[trigger] ntm[i] < limit);
            assert(stm[i] >= limit || ntm[i] >= limit);
            assert(outside);
        } else {
            assert forall|i: int| 0 <= i < stm.len() implies !(#[trigger] stm[i] >= limit
                || ntm[i] >= limit) by {
                assert(stm[i] < limit && ntm[i] < limit);
            }
            assert(!outside);
        }
        assert(outside == !(all_below(stm, limit) && all_below(ntm, limit)));
    }
}

/// What `map_features` hands out: pair for pair the two features in the same place, as long as
/// both are inputs, and no pair behind one of which that is not so. Nothing where the numbers of
/// features differ, are too large, or there are too many inputs.
pub proof fn lemma_handed_out_pairs(inputs: HalfKPView, stm: Seq<u32>, ntm: Seq<u32>)
    ensures
        ({
            let handed = inputs.handed_out(stm, ntm);
            let n = handed.len() as int;
            let limit = inputs.planes * inputs.king_squares;
            if stm.len() == ntm.len() && stm.len() <= inputs.max_active && limit <= usize::MAX {
                &&& n <= stm.len()
                &&& forall|i: int|
                    0 <= i < n ==> {
                        &&& (#[trigger] handed[i]).0 == stm[i] && handed[i].1 == ntm[i]
                        &&& stm[i] < limit && ntm[i] < limit
                    }
                &&& n < stm.len() ==> stm[n] >= limit || ntm[n] >= limit
            } else {
                n == 0
            }
        }),
{
    let handed = inputs.handed_out(stm, ntm);
    let limit = inputs.dimension();
    lemma_fitting(stm, ntm, limit, stm.len());
    if stm.len() == ntm.len() && stm.len() <= inputs.max_active && limit <= usize::MAX {
        assert forall|i: int| 0 <= i < handed.len() implies {
            &&& (#[trigger] handed[i]).0 == stm[i] && handed[i].1 == ntm[i]
            &&& stm[i] < limit && ntm[i] < limit
        } by {
            assert(handed[i] == paired(stm, ntm)[i]);
            if inputs.fault(stm, ntm) is Some {
                assert(pair_fits(stm, ntm, limit, i));
            }
        }
        if handed.len() < stm.len() {
            assert(!pair_fits(stm, ntm, limit, handed.len() as int));
        }
    }
}

/// Every pair that `map_features` hands out names two inputs, and there are no more pairs than may
/// be active at once.
pub proof fn lemma_pairs_in_range(inputs: HalfKPView, stm: Seq<u32>, ntm: Seq<u32>)
    ensures
        inputs.handed_out(stm, ntm).len() <= inputs.max_active,
        forall|i: int|
            0 <= i < inputs.handed_out(stm, ntm).len() ==> (#[trigger] inputs.handed_out(
                stm,
                ntm,
            )[i]).0 < inputs.dimension() && inputs.handed_out(stm, ntm)[i].1
                < inputs.dimension(),
{
    let handed = inputs.handed_out(stm, ntm);
    lemma_fitting(stm, ntm, inputs.dimension(), stm.len());
    assert forall|i: int| 0 <= i < handed.len() implies (#[trigger] handed[i]).0
        < inputs.dimension() && handed[i].1 < inputs.dimension() by {
        assert(handed[i] == paired(stm, ntm)[i]);
        if inputs.fault(stm, ntm) is None {
            assert(stm[i] < inputs.dimension());
            assert(ntm[i] < inputs.dimension());
        } else {
            assert(pair_fits(stm, ntm, inputs.dimension(), i));
        }
    }
}

/// Inputs with the same short name have the same planes, king squares and mirroring.
pub proof fn lemma_shorthand_identifies(a: HalfKPView, b: HalfKPView)
    requires
        a.shorthand() == b.shorthand(),
    ensures
        a.planes == b.planes,
        a.king_squares == b.king_squares,
        a.mirrored == b.mirrored,
{
    reveal_strlit("x");
    reveal_strlit("hm");
    let tail_a = if a.mirrored {
        "hm"@
    } else {
        Seq::empty()
    };
    let tail_b = if b.mirrored {
        "hm"@
    } else {
        Seq::empty()
    };
    let rest_a = "x"@ + (decimal_chars(a.king_squares) + tail_a);
    let rest_b = "x"@ + (decimal_chars(b.king_squares) + tail_b);
    assert(a.shorthand() =~= decimal_chars(a.planes) + rest_a);
    assert(b.shorthand() =~= decimal_chars(b.planes) + rest_b);
    lemma_decimal_prefix(a.planes, b.planes, rest_a, rest_b);
    assert(rest_a.skip(1) =~= decimal_chars(a.king_squares) + tail_a);
    assert(rest_b.skip(1) =~= decimal_chars(b.king_squares) + tail_b);
    lemma_decimal_prefix(a.king_squares, b.king_squares, tail_a, tail_b);
    assert("hm"@.len() == 2);
}

/// Inputs with the same long name have the same planes, king squares and mirroring.
pub proof fn lemma_description_identifies(a: HalfKPView, b: HalfKPView)
    requires
        a.description() == b.description(),
    ensures
        a.planes == b.planes,
        a.king_squares == b.king_squares,
        a.mirrored == b.mirrored,
{
    let head = "Shogi HalfKP inputs (plane_count="@;
    let squares = ", king_squares="@;
    assert(squares.len() > 0 && !is_digit(squares[0])) by {
        reveal_strlit(", king_squares=");
    }
    let tail_a = mirroring_text(a.mirrored);
    let tail_b = mirroring_text(b.mirrored);
    lemma_mirroring_text(a.mirrored, b.mirrored);
    let rest_a = squares + (decimal_chars(a.king_squares) + tail_a);
    let rest_b = squares + (decimal_chars(b.king_squares) + tail_b);
    lemma_description_parts(a, rest_a);
    lemma_description_parts(b, rest_b);
    lemma_same_head(head, decimal_chars(a.planes) + rest_a, decimal_chars(b.planes) + rest_b);
    assert(rest_a[0] == squares[0] && rest_b[0] == squares[0]);
    lemma_decimal_prefix(a.planes, b.planes, rest_a, rest_b);
    lemma_same_head(
        squares,
        decimal_chars(a.king_squares) + tail_a,
        decimal_chars(b.king_squares) + tail_b,
    );
    lemma_decimal_prefix(a.king_squares, b.king_squares, tail_a, tail_b);
}

spec fn mirroring_text(mirrored: bool) -> Seq<char> {
    ", hm="@ + ((if mirrored {
        "true"@
    } else {
        "false"@
    }) + ")"@)
}

proof fn lemma_mirroring_text(a: bool, b: bool)
    ensures
        mirroring_text(a).len() > 0,
        !is_digit(mirroring_text(a)[0]),
        mirroring_text(b).len() > 0,
        !is_digit(mirroring_text(b)[0]),
        mirroring_text(a) == mirroring_text(b) ==> a == b,
{
    reveal_strlit(", hm=");
    reveal_strlit("true");
    reveal_strlit("false");
    assert(mirroring_text(true)[5] == 't');
    assert(mirroring_text(false)[5] == 'f');
}

proof fn lemma_description_parts(a: HalfKPView, rest: Seq<char>)
    requires
        rest == ", king_squares="@ + (decimal_chars(a.king_squares) + mirroring_text(a.mirrored)),
    ensures
        a.description() == "Shogi HalfKP inputs (plane_count="@ + (decimal_chars(a.planes) + rest),
{
    assert(a.description() =~= "Shogi HalfKP inputs (plane_count="@ + (decimal_chars(a.planes)
        + rest));
}

proof fn lemma_same_head(head: Seq<char>, a: Seq<char>, b: Seq<char>)
    requires
        head + a == head + b,
    ensures
        a == b,
{
    assert(a =~= (head + a).skip(head.len() as int));
    assert(b =~= (head + b).skip(head.len() as int));
}

} // verus!
