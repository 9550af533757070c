//! The attention engine, the channel arbitrator and the forgetting
//! catalogue.
//!
//! Attention is a weight per memory region. A cycle of the engine samples
//! the grid where attention is high, keeps the sampled waves that have not
//! faded, and raises the weight of the regions those waves belong to. The
//! arbitrator decides which sensor channels are worth processing. The
//! catalogue names the decay curves and says which one a context calls for.

use vstd::prelude::*;
use vstd::hash_map::StringHashMap;
use vstd::string::StringExecFns;
use std::sync::Arc;
use crate::arithmetic::Formula;
use crate::arithmetic::Operation;
use crate::arithmetic::Term;
use crate::arithmetic::Unary;
use crate::arithmetic::at_most;
use crate::arithmetic::constant;
use crate::arithmetic::difference;
use crate::arithmetic::evaluates;
use crate::arithmetic::exp;
use crate::arithmetic::integer;
use crate::arithmetic::operand;
use crate::arithmetic::product;
use crate::arithmetic::quotient;
use crate::arithmetic::sum;
use crate::arithmetic::total;
use crate::arithmetic::value;
use crate::scalar::ONE;
use crate::scalar::Scalar;
use crate::scalar::ZERO;
use crate::text::same_text;
use crate::timespan::TimeSpan;
use crate::wave::FrequencyBand;
use crate::wave::GridView;
use crate::wave::MemoryWave;
use crate::wave::WaveGrid;
use crate::wave::decays_at;
use crate::wave::decays_of;
use crate::wave::share;
use crate::wave::waves_of;

verus! {

/// A part of memory that attention can be given to.
#[derive(Debug)]
pub enum MemoryRegion {
    /// A column of the grid, by its first two coordinates.
    Visual(u8, u8),
    /// A band of frequencies.
    Auditory(u16),
    /// A layer of the grid, by its third coordinate.
    Temporal(u16),
    /// A semantic category.
    Semantic(String),
    /// An emotional category.
    Emotional(String),
}

/// A memory region as a mathematical value.
pub enum RegionView {
    Visual(u8, u8),
    Auditory(u16),
    Temporal(u16),
    Semantic(Seq<char>),
    Emotional(Seq<char>),
}

impl View for MemoryRegion {
    type V = RegionView;

    open spec fn view(&self) -> RegionView {
        match self {
            MemoryRegion::Visual(x, y) => RegionView::Visual(*x, *y),
            MemoryRegion::Auditory(band) => RegionView::Auditory(*band),
            MemoryRegion::Temporal(layer) => RegionView::Temporal(*layer),
            MemoryRegion::Semantic(name) => RegionView::Semantic(name@),
            MemoryRegion::Emotional(name) => RegionView::Emotional(name@),
        }
    }
}

impl MemoryRegion {
    /// Whether two regions are the same region.
    pub fn same_as(&self, other: &MemoryRegion) -> (same: bool)
        ensures
            same == (self@ == other@),
    {
        match (self, other) {
            (MemoryRegion::Visual(x, y), MemoryRegion::Visual(other_x, other_y)) => *x == *other_x
                && *y == *other_y,
            (MemoryRegion::Auditory(band), MemoryRegion::Auditory(other_band)) => *band
                == *other_band,
            (MemoryRegion::Temporal(layer), MemoryRegion::Temporal(other_layer)) => *layer
                == *other_layer,
            (MemoryRegion::Semantic(name), MemoryRegion::Semantic(other_name)) => *name
                == *other_name,
            (MemoryRegion::Emotional(name), MemoryRegion::Emotional(other_name)) => *name
                == *other_name,
            _ => false,
        }
    }

    /// A copy of the region.
    pub fn duplicate(&self) -> (copy: MemoryRegion)
        ensures
            copy@ == self@,
    {
        match self {
            MemoryRegion::Visual(x, y) => MemoryRegion::Visual(*x, *y),
            MemoryRegion::Auditory(band) => MemoryRegion::Auditory(*band),
            MemoryRegion::Temporal(layer) => MemoryRegion::Temporal(*layer),
            MemoryRegion::Semantic(name) => MemoryRegion::Semantic(name.clone()),
            MemoryRegion::Emotional(name) => MemoryRegion::Emotional(name.clone()),
        }
    }
}

/// The place of a region among the entries, if it has one.
pub open spec fn position_of(entries: Seq<(RegionView, Scalar)>, region: RegionView) -> Option<int> {
    if exists|i: int| 0 <= i < entries.len() && (#[trigger] entries[i]).0 == region {
        Some(choose|i: int| 0 <= i < entries.len() && (#[trigger] entries[i]).0 == region)
    } else {
        None
    }
}

/// No region has two entries.
pub open spec fn distinct_regions(entries: Seq<(RegionView, Scalar)>) -> bool {
    forall|i: int, j: int|
        0 <= i < j < entries.len() ==> (#[trigger] entries[i]).0 != (#[trigger] entries[j]).0
}

/// Bit pattern of `0.95`: what is left of an attention weight after one
/// cycle without a boost.
pub const ATTENTION_DECAY: u32 = 0x3f73_3333;

/// Bit pattern of `0.1`: what an active wave adds to the weight of its
/// region.
pub const ATTENTION_BOOST: u32 = 0x3dcc_cccd;

/// The sum of the first `count` weights, added up from zero in order.
pub open spec fn total_formula(entries: Seq<(RegionView, Scalar)>, count: nat) -> Formula
    decreases count,
{
    if count == 0 {
        constant(ZERO)
    } else {
        sum(total_formula(entries, (count - 1) as nat), value(entries[count - 1].1))
    }
}

/// Whether `after` holds the weights of `before`, each decayed by the
/// factor 0.95, for the same regions in the same order.
pub open spec fn decayed_weights<A: Fn(Operation) -> Scalar>(
    arithmetic: A,
    before: Seq<(RegionView, Scalar)>,
    after: Seq<(RegionView, Scalar)>,
) -> bool {
    &&& after.len() == before.len()
    &&& forall|i: int|
        0 <= i < before.len() ==> (#[trigger] after[i]).0 == before[i].0 && evaluates(
            arithmetic,
            product(value(before[i].1), constant(ATTENTION_DECAY)),
            after[i].1,
        )
}

/// The weights with an entry for the region: as they are if the region
/// has one, otherwise with a new entry of weight zero after the others.
pub open spec fn with_entry(entries: Seq<(RegionView, Scalar)>, region: RegionView) -> Seq<
    (RegionView, Scalar),
> {
    match position_of(entries, region) {
        Some(_) => entries,
        None => entries.push((region, Scalar::from_bits(ZERO))),
    }
}

/// Whether `after` holds the weights of `before` with the weight of the
/// region raised by 0.1. A region without a weight starts from zero.
pub open spec fn boosted_once<A: Fn(Operation) -> Scalar>(
    arithmetic: A,
    before: Seq<(RegionView, Scalar)>,
    region: RegionView,
    after: Seq<(RegionView, Scalar)>,
) -> bool {
    let entered = with_entry(before, region);
    match position_of(entered, region) {
        Some(place) => exists|raised: Scalar|
            #![trigger operand(raised)]
            operand(raised) && evaluates(
                arithmetic,
                sum(value(entered[place].1), constant(ATTENTION_BOOST)),
                raised,
            ) && after == entered.update(place, (region, raised)),
        None => false,
    }
}

/// Marks a table of weights as a stage on the way from one table to
/// another.
pub open spec fn stage(entries: Seq<(RegionView, Scalar)>) -> bool {
    true
}

/// Whether `after` holds the weights of `before` after the first `count`
/// regions were boosted once each, in order.
pub open spec fn boosted_weights<A: Fn(Operation) -> Scalar>(
    arithmetic: A,
    before: Seq<(RegionView, Scalar)>,
    regions: Seq<RegionView>,
    count: nat,
    after: Seq<(RegionView, Scalar)>,
) -> bool
    decreases count,
{
    if count == 0 {
        after == before
    } else {
        exists|middle: Seq<(RegionView, Scalar)>|
            #![trigger stage(middle)]
            stage(middle) && boosted_weights(
                arithmetic,
                before,
                regions,
                (count - 1) as nat,
                middle,
            ) && boosted_once(arithmetic, middle, regions[count - 1], after)
    }
}

/// Whether `after` holds the weights of `before` brought to a sum of one:
/// each divided by their sum when the sum is above zero, and unchanged
/// otherwise.
pub open spec fn normalized_weights<A: Fn(Operation) -> Scalar>(
    arithmetic: A,
    before: Seq<(RegionView, Scalar)>,
    after: Seq<(RegionView, Scalar)>,
) -> bool {
    exists|whole: Scalar|
        #![trigger operand(whole)]
        operand(whole) && evaluates(arithmetic, total_formula(before, before.len()), whole) && if whole.spec_gt(
            Scalar::from_bits(ZERO),
        ) {
            &&& after.len() == before.len()
            &&& forall|i: int|
                0 <= i < before.len() ==> (#[trigger] after[i]).0 == before[i].0 && evaluates(
                    arithmetic,
                    quotient(value(before[i].1), value(whole)),
                    after[i].1,
                )
        } else {
            after == before
        }
}

/// The attention given to each region: a weight per region, the regions in
/// the order in which they first got one.
///
/// The weights are kept in a vector, not in a hash map. A cycle changes
/// every weight in place and samples the regions in a fixed order, and a
/// region is found by what it names; a hash map offers neither a verified
/// way to change all its values nor a key of this kind whose hashing
/// Verus would know anything about.
pub struct AttentionWeights {
    entries: Vec<(MemoryRegion, Scalar)>,
}

impl View for AttentionWeights {
    type V = Seq<(RegionView, Scalar)>;

    closed spec fn view(&self) -> Seq<(RegionView, Scalar)> {
        self.entries@.map_values(|entry: (MemoryRegion, Scalar)| (entry.0@, entry.1))
    }
}

impl AttentionWeights {
    /// Every region has at most one weight.
    pub open spec fn wf(&self) -> bool {
        distinct_regions(self@)
    }

    /// No weights at all.
    pub fn new() -> (weights: AttentionWeights)
        ensures
            weights@.len() == 0,
            weights.wf(),
    {
        AttentionWeights { entries: Vec::new() }
    }

    /// The number of regions that have a weight.
    pub fn len(&self) -> (len: usize)
        ensures
            len == self@.len(),
    {
        self.entries.len()
    }

    /// The number the sum of the weights is divided by to get their mean:
    /// the number of weights, or one when there is none.
    pub fn mean_denominator(&self) -> (denominator: usize)
        ensures
            denominator == if self@.len() == 0 {
                1
            } else {
                self@.len()
            },
    {
        if self.entries.len() == 0 {
            1
        } else {
            self.entries.len()
        }
    }

    /// Whether weights of the given sum are brought to a sum of one: only
    /// when the sum is above zero.
    pub fn normalizable(sum: Scalar) -> (normalizable: bool)
        ensures
            normalizable == sum.spec_gt(Scalar::from_bits(ZERO)),
    {
        sum.gt(Scalar::from_bits(ZERO))
    }

    /// The region of the `i`-th entry.
    pub fn region(&self, i: usize) -> (region: &MemoryRegion)
        requires
            i < self@.len(),
        ensures
            region@ == self@[i as int].0,
    {
        &self.entries[i].0
    }

    /// The weight of the `i`-th entry.
    pub fn weight(&self, i: usize) -> (weight: Scalar)
        requires
            i < self@.len(),
        ensures
            weight == self@[i as int].1,
    {
        self.entries[i].1
    }

    /// Gives the `i`-th entry a new weight.
    pub fn set_weight(&mut self, i: usize, weight: Scalar)
        requires
            i < old(self)@.len(),
            old(self).wf(),
        ensures
            final(self)@ == old(self)@.update(i as int, (old(self)@[i as int].0, weight)),
            final(self).wf(),
    {
        let region: MemoryRegion = self.entries[i].0.duplicate();
        self.entries.set(i, (region, weight));
        assert(self@ =~= old(self)@.update(i as int, (old(self)@[i as int].0, weight)));
    }

    /// Where the region's entry is, if it has one.
    pub fn find(&self, region: &MemoryRegion) -> (found: Option<usize>)
        ensures
            match found {
                Some(i) => i < self@.len() && self@[i as int].0 == region@,
                None => forall|i: int| 0 <= i < self@.len() ==> (#[trigger] self@[i]).0 != region@,
            },
    {
        let mut i: usize = 0;
        while i < self.entries.len()
            invariant
                i <= self.entries.len(),
                self@.len() == self.entries.len(),
                forall|j: int| 0 <= j < i ==> (#[trigger] self@[j]).0 != region@,
            decreases self.entries.len() - i,
        {
            if self.entries[i].0.same_as(region) {
                return Some(i);
            }
            i = i + 1;
        }
        None
    }

    /// The weight of a region, if it has one.
    pub fn get(&self, region: &MemoryRegion) -> (weight: Option<Scalar>)
        ensures
            match weight {
                Some(w) => exists|i: int|
                    0 <= i < self@.len() && #[trigger] self@[i] == (region@, w),
                None => forall|i: int| 0 <= i < self@.len() ==> (#[trigger] self@[i]).0 != region@,
            },
    {
        match self.find(region) {
            Some(i) => {
                assert(self@[i as int] == (region@, self@[i as int].1));
                Some(self.entries[i].1)
            },
            None => None,
        }
    }

    /// The place of the region's entry. A region without an entry gets one
    /// with weight zero, after all the others.
    pub fn entry(&mut self, region: MemoryRegion) -> (place: usize)
        requires
            old(self).wf(),
        ensures
            final(self).wf(),
            place < final(self)@.len(),
            final(self)@[place as int].0 == region@,
            match position_of(old(self)@, region@) {
                Some(i) => final(self)@ == old(self)@ && place == i,
                None => final(self)@ == old(self)@.push((region@, Scalar::from_bits(ZERO)))
                    && place == old(self)@.len(),
            },
    {
        match self.find(&region) {
            Some(i) => i,
            None => {
                let place: usize = self.entries.len();
                self.entries.push((region, Scalar::from_bits(ZERO)));
                assert(self@ =~= old(self)@.push((region@, Scalar::from_bits(ZERO))));
                place
            },
        }
    }

    /// Gives the region a weight, in place of the one it had if it had one.
    pub fn insert(&mut self, region: MemoryRegion, weight: Scalar)
        requires
            old(self).wf(),
        ensures
            final(self).wf(),
            match position_of(old(self)@, region@) {
                Some(i) => final(self)@ == old(self)@.update(i, (region@, weight)),
                None => final(self)@ == old(self)@.push((region@, weight)),
            },
    {
        let ghost region_view = region@;
        let place: usize = self.entry(region);
        self.set_weight(place, weight);
        assert(self@ =~= match position_of(old(self)@, region_view) {
            Some(i) => old(self)@.update(i, (region_view, weight)),
            None => old(self)@.push((region_view, weight)),
        });
    }

    /// The sum of all weights, added up from zero in order.
    pub fn total<A: Fn(Operation) -> Scalar>(&self, arithmetic: &A) -> (whole: Scalar)
        requires
            total(*arithmetic),
        ensures
            evaluates(*arithmetic, total_formula(self@, self@.len()), whole),
    {
        let mut whole: Term = Term::constant(ZERO);
        let mut i: usize = 0;
        while i < self.entries.len()
            invariant
                i <= self@.len(),
                self@.len() == self.entries@.len(),
                total(*arithmetic),
                whole.holds(*arithmetic),
                whole.formula@ == total_formula(self@, i as nat),
            decreases self@.len() - i,
        {
            whole = whole.plus(&Term::of(self.entries[i].1), arithmetic);
            i = i + 1;
        }
        whole.value
    }

    /// Lets every weight decay by the factor 0.95.
    pub fn decay<A: Fn(Operation) -> Scalar>(&mut self, arithmetic: &A)
        requires
            total(*arithmetic),
            old(self).wf(),
        ensures
            final(self).wf(),
            decayed_weights(*arithmetic, old(self)@, final(self)@),
    {
        let mut i: usize = 0;
        while i < self.entries.len()
            invariant
                i <= self@.len(),
                self@.len() == old(self)@.len(),
                self.wf(),
                total(*arithmetic),
                forall|j: int| 0 <= j < self@.len() ==> (#[trigger] self@[j]).0 == old(self)@[j].0,
                forall|j: int| i <= j < self@.len() ==> #[trigger] self@[j] == old(self)@[j],
                forall|j: int|
                    0 <= j < i ==> evaluates(
                        *arithmetic,
                        product(value(old(self)@[j].1), constant(ATTENTION_DECAY)),
                        (#[trigger] self@[j]).1,
                    ),
            decreases self@.len() - i,
        {
            let decayed: Term = Term::of(self.weight(i)).times(
                &Term::constant(ATTENTION_DECAY),
                arithmetic,
            );
            self.set_weight(i, decayed.value);
            i = i + 1;
        }
    }

    /// Raises the weight of the region by 0.1. A region without a weight
    /// starts from zero.
    pub fn boost<A: Fn(Operation) -> Scalar>(&mut self, region: MemoryRegion, arithmetic: &A)
        requires
            total(*arithmetic),
            old(self).wf(),
        ensures
            final(self).wf(),
            boosted_once(*arithmetic, old(self)@, region@, final(self)@),
    {
        let ghost region_view = region@;
        let place: usize = self.entry(region);
        let ghost entered = self@;
        let raised: Term = Term::of(self.weight(place)).plus(
            &Term::constant(ATTENTION_BOOST),
            arithmetic,
        );
        self.set_weight(place, raised.value);
        proof {
            assert(entered == with_entry(old(self)@, region_view));
            assert(entered[place as int].0 == region_view);
            assert(position_of(entered, region_view) == Some(place as int));
            assert(operand(raised.value));
        }
    }

    /// Brings the weights to a sum of one by dividing each by their sum.
    /// Weights whose sum is not above zero are left as they are.
    pub fn normalize<A: Fn(Operation) -> Scalar>(&mut self, arithmetic: &A)
        requires
            total(*arithmetic),
            old(self).wf(),
        ensures
            final(self).wf(),
            normalized_weights(*arithmetic, old(self)@, final(self)@),
    {
        let whole: Scalar = self.total(arithmetic);
        proof {
            assert(operand(whole));
        }
        if AttentionWeights::normalizable(whole) {
            let mut i: usize = 0;
            while i < self.entries.len()
                invariant
                    i <= self@.len(),
                    self@.len() == old(self)@.len(),
                    self.wf(),
                    total(*arithmetic),
                    forall|j: int|
                        0 <= j < self@.len() ==> (#[trigger] self@[j]).0 == old(self)@[j].0,
                    forall|j: int| i <= j < self@.len() ==> #[trigger] self@[j] == old(self)@[j],
                    forall|j: int|
                        0 <= j < i ==> evaluates(
                            *arithmetic,
                            quotient(value(old(self)@[j].1), value(whole)),
                            (#[trigger] self@[j]).1,
                        ),
                decreases self@.len() - i,
            {
                let share: Term = Term::of(self.weight(i)).over(&Term::of(whole), arithmetic);
                self.set_weight(i, share.value);
                i = i + 1;
            }
        }
    }
}

/// The shape of a forgetting curve and the time it retains a memory.
#[derive(Clone, Copy, Debug, PartialEq, Eq, Structural)]
pub enum ForgetCurve {
    /// Very short retention.
    Flash(TimeSpan),
    /// Quick fade.
    Fade(TimeSpan),
    /// Medium retention.
    Linger(TimeSpan),
    /// Long retention.
    Persist(TimeSpan),
    /// Permanent memory: never decays.
    Consolidate,
}

/// Bit pattern of `100.0`, the rate in Hz at which forgetting is processed.
pub const FORGETTING_RATE: u32 = 0x42c8_0000;

/// Retention of a flash curve, in milliseconds.
pub const FLASH_MILLIS: u64 = 500;

/// Retention of a fade curve, in seconds.
pub const FADE_SECS: u64 = 5;

/// Retention of a linger curve, in seconds.
pub const LINGER_SECS: u64 = 30;

/// Retention of a persist curve, in seconds.
pub const PERSIST_SECS: u64 = 300;

/// Retention of the fade curve used for a context without a curve of its
/// own, in seconds.
pub const FALLBACK_FADE_SECS: u64 = 10;

/// The catalogue of named curves: flash keeps half a second, fade five
/// seconds, linger thirty, persist three hundred, consolidate for ever.
pub open spec fn standard_curves() -> Map<Seq<char>, ForgetCurve> {
    Map::<Seq<char>, ForgetCurve>::empty().insert(
        "flash"@,
        ForgetCurve::Flash(TimeSpan { nanos: 500_000_000 }),
    ).insert("fade"@, ForgetCurve::Fade(TimeSpan { nanos: 5_000_000_000 })).insert(
        "linger"@,
        ForgetCurve::Linger(TimeSpan { nanos: 30_000_000_000 }),
    ).insert("persist"@, ForgetCurve::Persist(TimeSpan { nanos: 300_000_000_000 })).insert(
        "consolidate"@,
        ForgetCurve::Consolidate,
    )
}

/// The curve a context calls for. A context that is not one of the five
/// known ones fades within ten seconds.
pub open spec fn curve_for_context(context: Seq<char>) -> ForgetCurve {
    if context == "transient_detail"@ {
        ForgetCurve::Flash(TimeSpan { nanos: 500_000_000 })
    } else if context == "resolved_threat"@ {
        ForgetCurve::Fade(TimeSpan { nanos: 5_000_000_000 })
    } else if context == "familiar_anomaly"@ {
        ForgetCurve::Linger(TimeSpan { nanos: 30_000_000_000 })
    } else if context == "actionable_info"@ {
        ForgetCurve::Persist(TimeSpan { nanos: 300_000_000_000 })
    } else if context == "learned_pattern"@ {
        ForgetCurve::Consolidate
    } else {
        ForgetCurve::Fade(TimeSpan { nanos: 10_000_000_000 })
    }
}

/// Forgetting that goes on below awareness: the catalogue of curves and
/// the rate at which it is applied.
pub struct ForgettingProcessor {
    /// Processing rate in Hz.
    pub frequency: Scalar,
    /// The curves, by name.
    pub curves: StringHashMap<ForgetCurve>,
}

impl ForgettingProcessor {
    /// A processor that runs at 100 Hz and knows the five standard curves.
    pub fn new() -> (processor: ForgettingProcessor)
        ensures
            processor.frequency.bits == FORGETTING_RATE,
            processor.curves@ == standard_curves(),
    {
        let mut curves: StringHashMap<ForgetCurve> = StringHashMap::new();
        curves.insert(
            "flash".to_owned(),
            ForgetCurve::Flash(TimeSpan::from_millis(FLASH_MILLIS)),
        );
        curves.insert("fade".to_owned(), ForgetCurve::Fade(TimeSpan::from_secs(FADE_SECS)));
        curves.insert("linger".to_owned(), ForgetCurve::Linger(TimeSpan::from_secs(LINGER_SECS)));
        curves.insert(
            "persist".to_owned(),
            ForgetCurve::Persist(TimeSpan::from_secs(PERSIST_SECS)),
        );
        curves.insert("consolidate".to_owned(), ForgetCurve::Consolidate);
        ForgettingProcessor { frequency: Scalar::from_bits(FORGETTING_RATE), curves }
    }

    /// The curve by which a memory met in the given context is forgotten.
    /// The memory itself is left as it is.
    pub fn process(&self, memory: &mut MemoryWave, context: &str) -> (curve: ForgetCurve)
        ensures
            curve == curve_for_context(context@),
            *final(memory) == *old(memory),
    {
        if same_text(context, "transient_detail") {
            ForgetCurve::Flash(TimeSpan::from_millis(FLASH_MILLIS))
        } else if same_text(context, "resolved_threat") {
            ForgetCurve::Fade(TimeSpan::from_secs(FADE_SECS))
        } else if same_text(context, "familiar_anomaly") {
            ForgetCurve::Linger(TimeSpan::from_secs(LINGER_SECS))
        } else if same_text(context, "actionable_info") {
            ForgetCurve::Persist(TimeSpan::from_secs(PERSIST_SECS))
        } else if same_text(context, "learned_pattern") {
            ForgetCurve::Consolidate
        } else {
            ForgetCurve::Fade(TimeSpan::from_secs(FALLBACK_FADE_SECS))
        }
    }
}

/// A colour channel of a visual sensor grid.
#[derive(Clone, Copy, Debug, PartialEq, Eq, Structural)]
pub enum ColorChannel {
    Red,
    Green,
    Blue,
}

/// The direction a motion sensor grid responds to.
#[derive(Clone, Copy, Debug, PartialEq, Eq, Structural)]
pub enum MotionDirection {
    Horizontal,
    Vertical,
}

/// What a sensor grid senses.
#[derive(Clone, Copy, Debug)]
pub enum SensorGridType {
    /// One colour channel.
    ColorChannel(ColorChannel),
    /// Motion along one direction.
    Motion(MotionDirection),
    /// Edges at an angle, in degrees.
    EdgeDetection(u16),
    Depth,
    Saliency,
    Luminance,
    /// Sound between a lowest and a highest frequency.
    FrequencyBand(Scalar, Scalar),
    Amplitude,
    Phase,
    Temporal,
    Context,
    Semantic,
}

/// A fixed calibration pattern.
#[derive(Clone, Debug)]
pub struct CalibrationPattern {
    pub name: String,
    pub pattern: Vec<Scalar>,
}

/// A filter that adapts to its input.
#[derive(Clone, Debug)]
pub struct AdaptiveFilter {
    pub name: String,
    pub strength: Scalar,
    pub adaptation_rate: Scalar,
}

/// Bit pattern of `0.4`, the weight of a change of lighting.
pub const LIGHTING_WEIGHT: u32 = 0x3ecc_cccd;

/// Bit pattern of `0.3`, the weight of a change of motion.
pub const MOTION_WEIGHT: u32 = 0x3e99_999a;

/// Bit pattern of `0.2`, the weight of a change of noise.
pub const NOISE_WEIGHT: u32 = 0x3e4c_cccd;

/// Bit pattern of `0.1`, the weight of any other change.
pub const OTHER_CHANGE_WEIGHT: u32 = 0x3dcc_cccd;

/// Bit pattern of `0.1`, the decay rate of a new temporal blanket.
pub const BLANKET_LAMBDA: u32 = 0x3dcc_cccd;

/// Bit pattern of `0.9`, the share of the old calibration in the new one.
pub const CALIBRATION_MEMORY: u32 = 0x3f66_6666;

/// Bit pattern of `0.1`, the share of the changes in the new calibration.
pub const CALIBRATION_INFLUENCE: u32 = 0x3dcc_cccd;

/// What a sequence of changes shows: the kind and the magnitude of each.
pub open spec fn change_views(changes: Seq<(String, Scalar)>) -> Seq<(Seq<char>, Scalar)> {
    changes.map_values(|change: (String, Scalar)| (change.0@, change.1))
}

/// The sum of the first `count` changes, from zero on, each magnitude
/// times the weight of its kind.
pub open spec fn delta_formula(changes: Seq<(Seq<char>, Scalar)>, count: nat) -> Formula
    decreases count,
{
    if count == 0 {
        constant(ZERO)
    } else {
        let (kind, magnitude) = changes[count - 1];
        sum(
            delta_formula(changes, (count - 1) as nat),
            product(constant(TemporalBlanket::spec_change_weight(kind)), value(magnitude)),
        )
    }
}

/// The calibration after the first `count` changes: `0.9 beta + 0.1 delta`.
pub open spec fn calibration_formula(
    beta: Scalar,
    changes: Seq<(Seq<char>, Scalar)>,
    count: nat,
) -> Formula {
    sum(
        product(value(beta), constant(CALIBRATION_MEMORY)),
        product(delta_formula(changes, count), constant(CALIBRATION_INFLUENCE)),
    )
}

/// How a sensor grid adapts to its surroundings over time.
pub struct TemporalBlanket {
    /// Adjustment by interest.
    pub alpha: Scalar,
    /// Decay rate by attention.
    pub lambda: Scalar,
    /// Calibration to the surroundings.
    pub beta_calib: Scalar,
    /// Fixed calibration patterns.
    pub hard_blankets: Vec<CalibrationPattern>,
    /// Adaptive filters.
    pub soft_blankets: Vec<AdaptiveFilter>,
}

impl TemporalBlanket {
    /// The weight with which a change of the surroundings enters the
    /// calibration, by the kind of change.
    pub open spec fn spec_change_weight(change_type: Seq<char>) -> u32 {
        if change_type == "lighting"@ {
            LIGHTING_WEIGHT
        } else if change_type == "motion"@ {
            MOTION_WEIGHT
        } else if change_type == "noise"@ {
            NOISE_WEIGHT
        } else {
            OTHER_CHANGE_WEIGHT
        }
    }

    /// A blanket with full adjustment by interest, a decay rate of 0.1, no
    /// calibration and neither patterns nor filters.
    pub fn new() -> (blanket: TemporalBlanket)
        ensures
            blanket.alpha.bits == crate::scalar::ONE,
            blanket.lambda.bits == BLANKET_LAMBDA,
            blanket.beta_calib.bits == ZERO,
            blanket.hard_blankets@.len() == 0,
            blanket.soft_blankets@.len() == 0,
    {
        TemporalBlanket {
            alpha: Scalar::from_bits(crate::scalar::ONE),
            lambda: Scalar::from_bits(BLANKET_LAMBDA),
            beta_calib: Scalar::from_bits(ZERO),
            hard_blankets: Vec::new(),
            soft_blankets: Vec::new(),
        }
    }

    /// The value of the blanket at time `t` under an interest:
    /// `alpha * exp(-lambda * interest * t) + beta`.
    pub open spec fn value_formula(self, t: Scalar, interest: Scalar) -> Formula {
        sum(
            product(
                value(self.alpha),
                exp(
                    product(
                        product(value(self.lambda.spec_negated()), value(interest)),
                        value(t),
                    ),
                ),
            ),
            value(self.beta_calib),
        )
    }

    /// The value of the blanket at time `t` under an interest.
    pub fn calculate<A: Fn(Operation) -> Scalar>(&self, t: Scalar, interest: Scalar, arithmetic: &A) -> (value:
        Scalar)
        requires
            total(*arithmetic),
        ensures
            evaluates(*arithmetic, self.value_formula(t, interest), value),
    {
        let exponent: Term = Term::of(self.lambda.negated()).times(
            &Term::of(interest),
            arithmetic,
        ).times(&Term::of(t), arithmetic);
        Term::of(self.alpha).times(&exponent.unary(Unary::Exp, arithmetic), arithmetic).plus(
            &Term::of(self.beta_calib),
            arithmetic,
        ).value
    }

    /// Moves the calibration towards the changes of the surroundings: the
    /// new calibration is `0.9 beta + 0.1 delta`, where `delta` is the sum
    /// of the magnitudes of the changes, each times the weight of its kind.
    pub fn adapt_to_environment<A: Fn(Operation) -> Scalar>(
        &mut self,
        env_changes: &Vec<(String, Scalar)>,
        arithmetic: &A,
    )
        requires
            total(*arithmetic),
        ensures
            evaluates(
                *arithmetic,
                calibration_formula(
                    old(self).beta_calib,
                    change_views(env_changes@),
                    env_changes@.len(),
                ),
                final(self).beta_calib,
            ),
            final(self).alpha == old(self).alpha,
            final(self).lambda == old(self).lambda,
            final(self).hard_blankets == old(self).hard_blankets,
            final(self).soft_blankets == old(self).soft_blankets,
    {
        let mut delta: Term = Term::constant(ZERO);
        let mut i: usize = 0;
        while i < env_changes.len()
            invariant
                i <= env_changes@.len(),
                total(*arithmetic),
                delta.holds(*arithmetic),
                delta.formula@ == delta_formula(change_views(env_changes@), i as nat),
            decreases env_changes@.len() - i,
        {
            let weight: Scalar = TemporalBlanket::change_weight(env_changes[i].0.as_str());
            assert(change_views(env_changes@)[i as int] == (env_changes@[i as int].0@, env_changes@[i as int].1));
            delta = delta.plus(&Term::of(weight).times(&Term::of(env_changes[i].1), arithmetic), arithmetic);
            i = i + 1;
        }
        let calibrated: Term = Term::of(self.beta_calib).times(
            &Term::constant(CALIBRATION_MEMORY),
            arithmetic,
        ).plus(&delta.times(&Term::constant(CALIBRATION_INFLUENCE), arithmetic), arithmetic);
        self.beta_calib = calibrated.value;
    }

    /// The weight of a change of the surroundings: 0.4 for lighting, 0.3
    /// for motion, 0.2 for noise and 0.1 for anything else.
    pub fn change_weight(change_type: &str) -> (weight: Scalar)
        ensures
            weight.bits == TemporalBlanket::spec_change_weight(change_type@),
    {
        if same_text(change_type, "lighting") {
            Scalar::from_bits(LIGHTING_WEIGHT)
        } else if same_text(change_type, "motion") {
            Scalar::from_bits(MOTION_WEIGHT)
        } else if same_text(change_type, "noise") {
            Scalar::from_bits(NOISE_WEIGHT)
        } else {
            Scalar::from_bits(OTHER_CHANGE_WEIGHT)
        }
    }
}

/// Bit pattern of `0.001`: the two blend weights of an arbitrator may miss
/// a sum of one by less than this.
pub const WEIGHT_TOLERANCE: u32 = 0x3a83_126f;

/// Bit pattern of `0.8`: interest above this lets a channel through
/// whatever its signal.
pub const OVERRIDE_INTEREST: u32 = 0x3f4c_cccd;

/// Bit pattern of `0.3`, the share of human control in a new engine.
pub const HUMAN_SHARE: u32 = 0x3e99_999a;

/// Bit pattern of `0.7`, the share of machine control in a new engine.
pub const MACHINE_SHARE: u32 = 0x3f33_3333;

/// The interest a channel has when none was set for it.
pub open spec fn interest_in(interests: Map<Seq<char>, Scalar>, channel: Seq<char>) -> Scalar {
    if interests.contains_key(channel) {
        interests[channel]
    } else {
        Scalar::from_bits(ZERO)
    }
}

/// Blends two sources of control over sensor channels and decides which
/// channels are worth processing. The two blend weights are set when the
/// arbitrator is made and add up to one within a thousandth.
pub struct SensorArbitrator {
    /// Weight of the human value, from 0 to 1.
    pub human_weight: Scalar,
    /// Weight of the machine value, from 0 to 1.
    pub ai_weight: Scalar,
    /// Interest of the machine in each channel.
    pub ai_interests: StringHashMap<Scalar>,
    /// Influence of the subconscious on each channel.
    pub subconscious_weights: StringHashMap<Scalar>,
}

/// Bit pattern of `0.3`, the share of the subconscious in the interest
/// taken in a channel.
pub const SUBCONSCIOUS_SHARE: u32 = 0x3e99_999a;

/// Bit pattern of `0.7`, the share of the machine in the interest taken in
/// a channel.
pub const MACHINE_INTEREST_SHARE: u32 = 0x3f33_3333;

/// By how much the sum of two blend weights misses one, before its sign is
/// dropped: `human + machine - 1`.
pub open spec fn deviation_formula(human_weight: Scalar, ai_weight: Scalar) -> Formula {
    difference(sum(value(human_weight), value(ai_weight)), constant(ONE))
}

/// The blend of a human and a machine value:
/// `human_weight * human_value + ai_weight * ai_value`.
pub open spec fn blend_formula(
    human_weight: Scalar,
    human_value: Scalar,
    ai_weight: Scalar,
    ai_value: Scalar,
) -> Formula {
    sum(
        product(value(human_weight), value(human_value)),
        product(value(ai_weight), value(ai_value)),
    )
}

/// The interest in a channel, raised by the influence of the subconscious
/// and by the interest of the machine:
/// `base + 0.3 base subconscious + 0.7 base machine`.
pub open spec fn interest_formula(base: Scalar, subconscious: Scalar, machine: Scalar) -> Formula {
    sum(
        sum(
            value(base),
            product(product(constant(SUBCONSCIOUS_SHARE), value(base)), value(subconscious)),
        ),
        product(product(constant(MACHINE_INTEREST_SHARE), value(base)), value(machine)),
    )
}

impl SensorArbitrator {
    /// Whether two blend weights are accepted, given by how much their sum
    /// misses one: by less than a thousandth.
    pub open spec fn spec_weights_balanced(deviation: Scalar) -> bool {
        deviation.spec_abs().spec_lt(Scalar::from_bits(WEIGHT_TOLERANCE))
    }

    /// Whether the machine's interest in a channel lets it through
    /// whatever its signal: the interest is above 0.8.
    pub open spec fn overrides(self, channel: Seq<char>) -> bool {
        interest_in(self.ai_interests@, channel).spec_gt(Scalar::from_bits(OVERRIDE_INTEREST))
    }

    /// The interest in a channel of the given signal strength.
    pub open spec fn weighted_interest_formula(self, channel: Seq<char>, base: Scalar) -> Formula {
        interest_formula(
            base,
            interest_in(self.subconscious_weights@, channel),
            interest_in(self.ai_interests@, channel),
        )
    }

    /// Whether a deviation is less than a thousandth away from zero.
    #[verifier::when_used_as_spec(spec_weights_balanced)]
    pub fn weights_balanced(deviation: Scalar) -> (balanced: bool)
        ensures
            balanced == SensorArbitrator::spec_weights_balanced(deviation),
    {
        deviation.abs().lt(Scalar::from_bits(WEIGHT_TOLERANCE))
    }

    /// An arbitrator with the given blend weights and no interests set.
    /// The weights have to add up to one within a thousandth: `deviation`
    /// is what the arithmetic gave for their sum less one, and it has to
    /// be less than a thousandth away from zero.
    pub fn new<A: Fn(Operation) -> Scalar>(
        human_weight: Scalar,
        ai_weight: Scalar,
        deviation: Scalar,
        arithmetic: &A,
    ) -> (arbitrator: SensorArbitrator)
        requires
            evaluates(*arithmetic, deviation_formula(human_weight, ai_weight), deviation),
            SensorArbitrator::spec_weights_balanced(deviation),
        ensures
            arbitrator.human_weight == human_weight,
            arbitrator.ai_weight == ai_weight,
            arbitrator.ai_interests@ == Map::<Seq<char>, Scalar>::empty(),
            arbitrator.subconscious_weights@ == Map::<Seq<char>, Scalar>::empty(),
    {
        SensorArbitrator {
            human_weight,
            ai_weight,
            ai_interests: StringHashMap::new(),
            subconscious_weights: StringHashMap::new(),
        }
    }

    /// An arbitrator with the given blend weights and no interests set, if
    /// the weights add up to one within a thousandth, and nothing
    /// otherwise.
    pub fn with_weights<A: Fn(Operation) -> Scalar>(
        human_weight: Scalar,
        ai_weight: Scalar,
        arithmetic: &A,
    ) -> (made: Option<SensorArbitrator>)
        requires
            total(*arithmetic),
        ensures
            exists|deviation: Scalar|
                #![trigger operand(deviation)]
                operand(deviation) && evaluates(
                    *arithmetic,
                    deviation_formula(human_weight, ai_weight),
                    deviation,
                ) && (made is Some <==> SensorArbitrator::spec_weights_balanced(deviation)),
            match made {
                Some(arbitrator) => arbitrator.human_weight == human_weight
                    && arbitrator.ai_weight == ai_weight && arbitrator.ai_interests@
                    == Map::<Seq<char>, Scalar>::empty() && arbitrator.subconscious_weights@
                    == Map::<Seq<char>, Scalar>::empty(),
                None => true,
            },
    {
        let deviation: Term = Term::of(human_weight).plus(&Term::of(ai_weight), arithmetic).minus(
            &Term::constant(ONE),
            arithmetic,
        );
        proof {
            assert(operand(deviation.value));
        }
        if SensorArbitrator::weights_balanced(deviation.value) {
            Some(SensorArbitrator::new(human_weight, ai_weight, deviation.value, arithmetic))
        } else {
            None
        }
    }

    /// The blend of the human and the machine value for a channel.
    pub fn arbitrate<A: Fn(Operation) -> Scalar>(
        &self,
        sensor_id: &str,
        human_value: Scalar,
        ai_value: Scalar,
        arithmetic: &A,
    ) -> (blend: Scalar)
        requires
            total(*arithmetic),
        ensures
            evaluates(
                *arithmetic,
                blend_formula(
                    self.human_weight,
                    human_value,
                    self.ai_weight,
                    ai_value,
                ),
                blend,
            ),
    {
        Term::of(self.human_weight).times(&Term::of(human_value), arithmetic).plus(
            &Term::of(self.ai_weight).times(&Term::of(ai_value), arithmetic),
            arithmetic,
        ).value
    }

    /// The influence of the subconscious on a channel and the machine's
    /// interest in it; zero where none was set.
    pub fn interest_weights(&self, sensor_id: &str) -> (weights: (Scalar, Scalar))
        ensures
            weights.0 == interest_in(self.subconscious_weights@, sensor_id@),
            weights.1 == interest_in(self.ai_interests@, sensor_id@),
    {
        let subconscious: Scalar = match self.subconscious_weights.get(sensor_id) {
            Some(weight) => *weight,
            None => Scalar::from_bits(ZERO),
        };
        let machine: Scalar = match self.ai_interests.get(sensor_id) {
            Some(weight) => *weight,
            None => Scalar::from_bits(ZERO),
        };
        (subconscious, machine)
    }

    /// The interest in a channel of the given base interest, raised by the
    /// influence of the subconscious and the interest of the machine.
    pub fn calculate_weighted_interest<A: Fn(Operation) -> Scalar>(
        &self,
        sensor_id: &str,
        base_interest: Scalar,
        arithmetic: &A,
    ) -> (interest: Scalar)
        requires
            total(*arithmetic),
        ensures
            evaluates(
                *arithmetic,
                self.weighted_interest_formula(sensor_id@, base_interest),
                interest,
            ),
    {
        let (subconscious, machine): (Scalar, Scalar) = self.interest_weights(sensor_id);
        let base: Term = Term::of(base_interest);
        let by_subconscious: Term = Term::constant(SUBCONSCIOUS_SHARE).times(&base, arithmetic).times(
            &Term::of(subconscious),
            arithmetic,
        );
        let by_machine: Term = Term::constant(MACHINE_INTEREST_SHARE).times(&base, arithmetic).times(
            &Term::of(machine),
            arithmetic,
        );
        base.plus(&by_subconscious, arithmetic).plus(&by_machine, arithmetic).value
    }

    /// Whether a channel is worth processing: always when the machine's
    /// interest in it is above 0.8, otherwise when the weighted interest
    /// in its signal is above the noise floor.
    pub fn should_process<A: Fn(Operation) -> Scalar>(
        &self,
        sensor_id: &str,
        signal_strength: Scalar,
        noise_floor: Scalar,
        arithmetic: &A,
    ) -> (process: bool)
        requires
            total(*arithmetic),
        ensures
            self.overrides(sensor_id@) ==> process,
            !self.overrides(sensor_id@) ==> exists|interest: Scalar|
                #![trigger operand(interest)]
                operand(interest) && evaluates(
                    *arithmetic,
                    self.weighted_interest_formula(sensor_id@, signal_strength),
                    interest,
                ) && process == interest.spec_gt(noise_floor),
    {
        let machine: Scalar = self.interest_weights(sensor_id).1;
        if machine.gt(Scalar::from_bits(OVERRIDE_INTEREST)) {
            return true;
        }
        let interest: Scalar = self.calculate_weighted_interest(sensor_id, signal_strength, arithmetic);
        proof {
            assert(operand(interest));
        }
        interest.gt(noise_floor)
    }
}

/// How attention is shared out.
#[derive(Clone, Copy, Debug, PartialEq, Eq, Structural)]
pub enum AttentionStrategy {
    /// Favour waves of high amplitude.
    AmplitudeBased,
    /// Favour emotionally salient waves.
    EmotionBased,
    /// Favour unfamiliar patterns.
    NoveltyBased,
    /// Weigh all of these alike.
    Balanced,
}

impl Default for AttentionStrategy {
    fn default() -> (strategy: AttentionStrategy)
        ensures
            strategy == AttentionStrategy::Balanced,
    {
        AttentionStrategy::Balanced
    }
}

/// A short response that a wave sets off without deliberation.
#[derive(Debug)]
pub struct ReflexiveComponent {
    /// What set the response off.
    pub trigger: String,
    /// What the response is.
    pub response: String,
    /// How strong it is.
    pub strength: Scalar,
}

impl View for ReflexiveComponent {
    type V = (Seq<char>, Seq<char>, Scalar);

    open spec fn view(&self) -> (Seq<char>, Seq<char>, Scalar) {
        (self.trigger@, self.response@, self.strength)
    }
}

/// What a sequence of responses shows.
pub open spec fn response_views(responses: Seq<ReflexiveComponent>) -> Seq<
    (Seq<char>, Seq<char>, Scalar),
> {
    responses.map_values(|response: ReflexiveComponent| response@)
}

/// Bit pattern of `0.5`, the awareness of a state before its first update.
pub const AWARENESS_DEFAULT: u32 = 0x3f00_0000;

/// What the engine is aware of at one moment.
pub struct ConsciousnessState {
    /// Attention given to each memory region.
    pub attention_weights: AttentionWeights,
    /// The waves that are active.
    pub active_memories: Vec<Arc<MemoryWave>>,
    /// The responses the active waves set off.
    pub reflexive_responses: Vec<ReflexiveComponent>,
    /// Level of awareness, from 0 to 1.
    pub awareness_level: Scalar,
    /// Clock reading of the last update.
    pub last_update: TimeSpan,
}

/// Bit pattern of `100.0`: this many active waves make for full activity.
pub const FULL_ACTIVITY: u32 = 0x42c8_0000;

/// Bit pattern of `2.0`.
pub const TWO: u32 = 0x4000_0000;

/// The number a sum of weights is divided by to get their mean: the number
/// of weights, or one when there is none.
pub open spec fn mean_denominator(entries: Seq<(RegionView, Scalar)>) -> u64 {
    if entries.len() == 0 {
        1
    } else {
        entries.len() as u64
    }
}

/// The awareness that goes with a number of active waves and the attention
/// weights: the mean of the activity, which is a hundredth of the number
/// of active waves and at most one, and of the mean attention weight.
pub open spec fn awareness_formula(active: nat, weights: Seq<(RegionView, Scalar)>) -> Formula {
    quotient(
        sum(
            at_most(
                quotient(integer(active as u64), constant(FULL_ACTIVITY)),
                Scalar::from_bits(ONE),
            ),
            quotient(total_formula(weights, weights.len()), integer(mean_denominator(weights))),
        ),
        constant(TWO),
    )
}

impl ConsciousnessState {
    /// A state without attention, active waves or responses, half aware,
    /// last updated at `now`.
    pub fn new(now: TimeSpan) -> (state: ConsciousnessState)
        ensures
            state.attention_weights@.len() == 0,
            state.attention_weights.wf(),
            state.active_memories@.len() == 0,
            state.reflexive_responses@.len() == 0,
            state.awareness_level.bits == AWARENESS_DEFAULT,
            state.last_update == now,
    {
        ConsciousnessState {
            attention_weights: AttentionWeights::new(),
            active_memories: Vec::new(),
            reflexive_responses: Vec::new(),
            awareness_level: Scalar::from_bits(AWARENESS_DEFAULT),
            last_update: now,
        }
    }

    /// The awareness that goes with the active waves and the attention
    /// weights of the state.
    pub fn calculate_awareness<A: Fn(Operation) -> Scalar>(&self, arithmetic: &A) -> (awareness:
        Scalar)
        requires
            total(*arithmetic),
        ensures
            evaluates(
                *arithmetic,
                awareness_formula(self.active_memories@.len(), self.attention_weights@),
                awareness,
            ),
    {
        let activity: Term = Term::integer(self.active_memories.len() as u64, arithmetic).over(
            &Term::constant(FULL_ACTIVITY),
            arithmetic,
        ).at_most(Scalar::from_bits(ONE), arithmetic);
        let whole: Scalar = self.attention_weights.total(arithmetic);
        let focus: Term = Term::known(
            whole,
            Ghost(total_formula(self.attention_weights@, self.attention_weights@.len())),
            arithmetic,
        ).over(&Term::integer(self.attention_weights.mean_denominator() as u64, arithmetic), arithmetic);
        activity.plus(&focus, arithmetic).over(&Term::constant(TWO), arithmetic).value
    }

    /// Replaces the active waves and the responses together, records the
    /// time of the update and works out the awareness anew. The attention
    /// weights stay as they are.
    pub fn update<A: Fn(Operation) -> Scalar>(
        &mut self,
        memories: Vec<Arc<MemoryWave>>,
        responses: Vec<ReflexiveComponent>,
        now: TimeSpan,
        arithmetic: &A,
    )
        requires
            total(*arithmetic),
        ensures
            final(self).active_memories == memories,
            final(self).reflexive_responses == responses,
            final(self).last_update == now,
            final(self).attention_weights == old(self).attention_weights,
            evaluates(
                *arithmetic,
                awareness_formula(memories@.len(), old(self).attention_weights@),
                final(self).awareness_level,
            ),
    {
        self.active_memories = memories;
        self.reflexive_responses = responses;
        self.last_update = now;
        self.awareness_level = self.calculate_awareness(arithmetic);
    }
}

/// Bit pattern of `0.3`: a region is sampled when its weight is above this.
pub const ATTENTION_THRESHOLD: u32 = 0x3e99_999a;

/// Bit pattern of `0.1`: a sampled wave is kept while the fraction of it
/// that decay has left is above this.
pub const RETENTION_DECAY: u32 = 0x3dcc_cccd;

/// Bit pattern of `0.7`: arousal above this sets off heightened attention.
pub const AROUSAL_ALERT: u32 = 0x3f33_3333;

/// Bit pattern of `-0.5`: valence below this belongs to a threat.
pub const VALENCE_THREAT: u32 = 0xbf00_0000;

/// Bit pattern of `0.8`: a threat of amplitude above this sets off a
/// defensive stance.
pub const AMPLITUDE_STRONG: u32 = 0x3f4c_cccd;

/// Layers sampled for a visual region, from the first on.
pub const VISUAL_LAYERS: u16 = 100;

/// Cells sampled along each of the first two axes for a temporal region.
pub const TEMPORAL_STEPS: u16 = 16;

/// Distance between two cells sampled for a temporal region.
pub const TEMPORAL_STRIDE: u16 = 16;

/// Cells sampled for a temporal region in all.
pub const TEMPORAL_CELLS: u16 = 256;

/// The waves in the first `layers` layers of the column at `(x, y)`, from
/// the first layer on.
pub open spec fn visual_samples(grid: GridView, x: int, y: int, layers: nat) -> Seq<MemoryWave>
    decreases layers,
{
    if layers == 0 {
        Seq::empty()
    } else {
        let before = visual_samples(grid, x, y, (layers - 1) as nat);
        match grid.get(x, y, layers - 1) {
            Some(wave) => before.push(wave),
            None => before,
        }
    }
}

/// The waves in the first `cells` cells sampled from layer `z`: every
/// sixteenth cell along both axes, the second axis running fastest.
pub open spec fn temporal_samples(grid: GridView, z: int, cells: nat) -> Seq<MemoryWave>
    decreases cells,
{
    if cells == 0 {
        Seq::empty()
    } else {
        let before = temporal_samples(grid, z, (cells - 1) as nat);
        let cell = cells - 1;
        let x = (cell / (TEMPORAL_STEPS as int)) * TEMPORAL_STRIDE;
        let y = (cell % (TEMPORAL_STEPS as int)) * TEMPORAL_STRIDE;
        match grid.get(x, y, z) {
            Some(wave) => before.push(wave),
            None => before,
        }
    }
}

/// The waves sampled for a region: a hundred layers of a visual region's
/// column, a sweep of a temporal region's layer, nothing for a region of
/// any other kind.
pub open spec fn region_samples(grid: GridView, region: RegionView) -> Seq<MemoryWave> {
    match region {
        RegionView::Visual(x, y) => visual_samples(grid, x as int, y as int, VISUAL_LAYERS as nat),
        RegionView::Temporal(z) => temporal_samples(grid, z as int, TEMPORAL_CELLS as nat),
        _ => Seq::empty(),
    }
}

/// The waves sampled for the first `count` attention weights: those of
/// each region whose weight is above 0.3, region after region.
pub open spec fn attended_samples(
    grid: GridView,
    weights: Seq<(RegionView, Scalar)>,
    count: nat,
) -> Seq<MemoryWave>
    decreases count,
{
    if count == 0 {
        Seq::empty()
    } else {
        let before = attended_samples(grid, weights, (count - 1) as nat);
        let (region, weight) = weights[count - 1];
        if weight.spec_gt(Scalar::from_bits(ATTENTION_THRESHOLD)) {
            before + region_samples(grid, region)
        } else {
            before
        }
    }
}

/// Of the first `count` sampled waves, those of which decay has left more
/// than a tenth, in order.
pub open spec fn retained(waves: Seq<MemoryWave>, decays: Seq<Scalar>, count: nat) -> Seq<
    MemoryWave,
>
    decreases count,
{
    if count == 0 {
        Seq::empty()
    } else {
        let before = retained(waves, decays, (count - 1) as nat);
        if decays[count - 1].spec_gt(Scalar::from_bits(RETENTION_DECAY)) {
            before.push(waves[count - 1])
        } else {
            before
        }
    }
}

/// The name of the semantic region a frequency band belongs to.
pub open spec fn band_region_name(band: FrequencyBand) -> Seq<char> {
    match band {
        FrequencyBand::DeepStructural => "structural"@,
        FrequencyBand::Conversational => "conversational"@,
        FrequencyBand::Technical => "technical"@,
        FrequencyBand::Implementation => "implementation"@,
        FrequencyBand::Abstract => "abstract"@,
        FrequencyBand::Beta => "beta_awareness"@,
        FrequencyBand::Gamma => "gamma_consciousness"@,
    }
}

/// The region whose weight an active wave raises: the semantic region of
/// the band its frequency falls in.
pub open spec fn boosted_region(wave: MemoryWave) -> RegionView {
    RegionView::Semantic(band_region_name(FrequencyBand::spec_from_frequency(wave.frequency)))
}

/// Whether a wave sets off heightened attention: its arousal is above 0.7.
pub open spec fn heightens_attention(wave: MemoryWave) -> bool {
    wave.arousal.spec_gt(Scalar::from_bits(AROUSAL_ALERT))
}

/// Whether a wave sets off a defensive stance: its valence is below -0.5
/// and its amplitude above 0.8.
pub open spec fn calls_for_defense(wave: MemoryWave) -> bool {
    wave.valence.spec_lt(Scalar::from_bits(VALENCE_THREAT)) && wave.amplitude.spec_gt(
        Scalar::from_bits(AMPLITUDE_STRONG),
    )
}

/// The response of heightened attention to a wave. Its trigger names the
/// wave's frequency, as `label` writes it out; its strength is the wave's
/// arousal.
pub open spec fn alert_response(wave: MemoryWave, label: Seq<char>) -> (
    Seq<char>,
    Seq<char>,
    Scalar,
) {
    ("High arousal memory ("@ + label + "Hz)"@, "Heightened attention"@, wave.arousal)
}

/// The defensive response to a wave, of the given strength.
pub open spec fn defense_response(strength: Scalar) -> (Seq<char>, Seq<char>, Scalar) {
    ("Negative high-amplitude memory"@, "Defensive stance"@, strength)
}

/// The responses that the first `count` waves set off, in order: for each
/// wave heightened attention first, then the defensive stance, where the
/// wave calls for them.
pub open spec fn reflexes(
    waves: Seq<MemoryWave>,
    labels: Seq<Seq<char>>,
    threat_strengths: Seq<Scalar>,
    count: nat,
) -> Seq<(Seq<char>, Seq<char>, Scalar)>
    decreases count,
{
    if count == 0 {
        Seq::empty()
    } else {
        let before = reflexes(waves, labels, threat_strengths, (count - 1) as nat);
        let wave = waves[count - 1];
        let alerted = if heightens_attention(wave) {
            before.push(alert_response(wave, labels[count - 1]))
        } else {
            before
        };
        if calls_for_defense(wave) {
            alerted.push(defense_response(threat_strengths[count - 1]))
        } else {
            alerted
        }
    }
}

/// The texts of a sequence of strings.
pub open spec fn texts_of(strings: Seq<String>) -> Seq<Seq<char>> {
    strings.map_values(|string: String| string@)
}

/// The regions whose weights a sequence of active waves raises, one per
/// wave.
pub open spec fn boosted_regions(waves: Seq<MemoryWave>) -> Seq<RegionView> {
    waves.map_values(|wave: MemoryWave| boosted_region(wave))
}

/// Marks a sequence of decay fractions as the readings taken of a sequence
/// of waves.
pub open spec fn readings(decays: Seq<Scalar>) -> bool {
    true
}

/// Whether `active` are the active waves at `now`: the waves sampled from
/// the grid under the given attention weights, as far as a value that the
/// arithmetic gives to the fraction decay has left of each is above a
/// tenth.
pub open spec fn active_of<A: Fn(Operation) -> Scalar>(
    arithmetic: A,
    grid: GridView,
    weights: Seq<(RegionView, Scalar)>,
    now: TimeSpan,
    active: Seq<MemoryWave>,
) -> bool {
    let sampled = attended_samples(grid, weights, weights.len());
    exists|decays: Seq<Scalar>|
        #![trigger readings(decays)]
        readings(decays) && decays_of(arithmetic, sampled, now, decays) && active == retained(
            sampled,
            decays,
            sampled.len(),
        )
}

/// The strength of the defensive stance a wave sets off: its amplitude
/// times the size of its valence.
pub open spec fn threat_formula(wave: MemoryWave) -> Formula {
    product(value(wave.amplitude), value(wave.valence.spec_abs()))
}

/// Whether `describe` writes out every frequency.
pub open spec fn describes_all<D: Fn(Scalar) -> String>(describe: D) -> bool {
    forall|frequency: Scalar| call_requires(describe, (frequency,))
}

/// Whether `label` is a text that `describe` writes for the frequency of
/// the wave.
pub open spec fn described<D: Fn(Scalar) -> String>(
    describe: D,
    wave: MemoryWave,
    label: Seq<char>,
) -> bool {
    exists|written: String|
        #![trigger call_ensures(describe, (wave.frequency,), written)]
        call_ensures(describe, (wave.frequency,), written) && written@ == label
}

/// Whether `labels` and `strengths` hold, for each of the waves, a text
/// that `describe` writes for its frequency and a value that the
/// arithmetic gives to the strength of its defensive stance.
pub open spec fn inputs_of<A: Fn(Operation) -> Scalar, D: Fn(Scalar) -> String>(
    arithmetic: A,
    describe: D,
    waves: Seq<MemoryWave>,
    labels: Seq<Seq<char>>,
    strengths: Seq<Scalar>,
) -> bool {
    &&& labels.len() == waves.len()
    &&& strengths.len() == waves.len()
    &&& forall|i: int| 0 <= i < waves.len() ==> described(describe, waves[i], #[trigger] labels[i])
    &&& forall|i: int|
        0 <= i < waves.len() ==> evaluates(
            arithmetic,
            threat_formula(waves[i]),
            #[trigger] strengths[i],
        )
}

/// Whether `responses` are the responses that the waves set off, with
/// triggers written by `describe` and strengths worked out by the
/// arithmetic.
pub open spec fn responses_of<A: Fn(Operation) -> Scalar, D: Fn(Scalar) -> String>(
    arithmetic: A,
    describe: D,
    waves: Seq<MemoryWave>,
    responses: Seq<(Seq<char>, Seq<char>, Scalar)>,
) -> bool {
    exists|labels: Seq<Seq<char>>, strengths: Seq<Scalar>|
        #![trigger inputs_of(arithmetic, describe, waves, labels, strengths)]
        inputs_of(arithmetic, describe, waves, labels, strengths) && responses == reflexes(
            waves,
            labels,
            strengths,
            waves.len(),
        )
}

/// Whether the arithmetic adds the shares of control of a new engine up to
/// one within a thousandth.
pub open spec fn default_shares_balance<A: Fn(Operation) -> Scalar>(arithmetic: A) -> bool {
    forall|deviation: Scalar|
        #[trigger] evaluates(
            arithmetic,
            deviation_formula(Scalar::from_bits(HUMAN_SHARE), Scalar::from_bits(MACHINE_SHARE)),
            deviation,
        ) ==> SensorArbitrator::spec_weights_balanced(deviation)
}

/// The engine that turns what the grid holds into attention, active waves
/// and reflexive responses.
pub struct ConsciousnessEngine {
    /// Decides which sensor channels are processed.
    pub arbitrator: SensorArbitrator,
    /// How attention is shared out.
    pub attention_strategy: AttentionStrategy,
}

impl ConsciousnessEngine {
    /// An engine in which the human has three tenths of the control and
    /// the machine seven, with balanced attention. The arithmetic has to
    /// add the two shares up to one within a thousandth, as
    /// single-precision arithmetic does.
    pub fn new<A: Fn(Operation) -> Scalar>(arithmetic: &A) -> (engine: ConsciousnessEngine)
        requires
            total(*arithmetic),
            default_shares_balance(*arithmetic),
        ensures
            engine.arbitrator.human_weight.bits == HUMAN_SHARE,
            engine.arbitrator.ai_weight.bits == MACHINE_SHARE,
            engine.arbitrator.ai_interests@ == Map::<Seq<char>, Scalar>::empty(),
            engine.arbitrator.subconscious_weights@ == Map::<Seq<char>, Scalar>::empty(),
            engine.attention_strategy == AttentionStrategy::Balanced,
    {
        let human: Scalar = Scalar::from_bits(HUMAN_SHARE);
        let machine: Scalar = Scalar::from_bits(MACHINE_SHARE);
        let deviation: Term = Term::of(human).plus(&Term::of(machine), arithmetic).minus(
            &Term::constant(ONE),
            arithmetic,
        );
        let arbitrator: SensorArbitrator = SensorArbitrator::new(
            human,
            machine,
            deviation.value,
            arithmetic,
        );
        ConsciousnessEngine { arbitrator, attention_strategy: AttentionStrategy::Balanced }
    }

    /// The waves the grid holds where attention is high: for every region
    /// whose weight is above 0.3, in the order of the weights, the waves
    /// that the region's sampling pattern meets.
    pub fn sample_attended(&self, grid: &WaveGrid, weights: &AttentionWeights) -> (sampled: Vec<
        Arc<MemoryWave>,
    >)
        ensures
            waves_of(sampled@) == attended_samples(grid@, weights@, weights@.len()),
    {
        let mut sampled: Vec<Arc<MemoryWave>> = Vec::new();
        let threshold: Scalar = Scalar::from_bits(ATTENTION_THRESHOLD);
        let mut i: usize = 0;
        while i < weights.len()
            invariant
                i <= weights@.len(),
                threshold == Scalar::from_bits(ATTENTION_THRESHOLD),
                waves_of(sampled@) == attended_samples(grid@, weights@, i as nat),
            decreases weights@.len() - i,
        {
            if weights.weight(i).gt(threshold) {
                let ghost before = waves_of(sampled@);
                match weights.region(i) {
                    MemoryRegion::Visual(x, y) => {
                        sample_column(grid, *x, *y, &mut sampled);
                    },
                    MemoryRegion::Temporal(z) => {
                        sample_layer(grid, *z, &mut sampled);
                    },
                    _ => {
                        assert(waves_of(sampled@) =~= before + Seq::<MemoryWave>::empty());
                    },
                }
            }
            i = i + 1;
        }
        sampled
    }

    /// Of the sampled waves, those of which decay has left more than a
    /// tenth. `decays` holds the fraction left of each sampled wave.
    pub fn retain_active(
        &self,
        sampled: &Vec<Arc<MemoryWave>>,
        decays: &Vec<Scalar>,
    ) -> (active: Vec<Arc<MemoryWave>>)
        requires
            decays@.len() == sampled@.len(),
        ensures
            waves_of(active@) == retained(waves_of(sampled@), decays@, sampled@.len()),
    {
        let mut active: Vec<Arc<MemoryWave>> = Vec::new();
        let threshold: Scalar = Scalar::from_bits(RETENTION_DECAY);
        let mut i: usize = 0;
        while i < sampled.len()
            invariant
                i <= sampled@.len(),
                decays@.len() == sampled@.len(),
                threshold == Scalar::from_bits(RETENTION_DECAY),
                waves_of(active@) == retained(waves_of(sampled@), decays@, i as nat),
            decreases sampled@.len() - i,
        {
            if decays[i].gt(threshold) {
                let ghost before = waves_of(active@);
                active.push(share(&sampled[i]));
                assert(waves_of(active@) =~= before.push(waves_of(sampled@)[i as int]));
            }
            i = i + 1;
        }
        active
    }

    /// The responses the active waves set off, given each wave's
    /// frequency written out and the strength of each wave's defensive
    /// stance.
    pub fn reflexive_responses_from(
        &self,
        memories: &Vec<Arc<MemoryWave>>,
        frequency_labels: &Vec<String>,
        threat_strengths: &Vec<Scalar>,
    ) -> (responses: Vec<ReflexiveComponent>)
        requires
            frequency_labels@.len() == memories@.len(),
            threat_strengths@.len() == memories@.len(),
        ensures
            response_views(responses@) == reflexes(
                waves_of(memories@),
                texts_of(frequency_labels@),
                threat_strengths@,
                memories@.len(),
            ),
    {
        let mut responses: Vec<ReflexiveComponent> = Vec::new();
        let mut i: usize = 0;
        while i < memories.len()
            invariant
                i <= memories@.len(),
                frequency_labels@.len() == memories@.len(),
                threat_strengths@.len() == memories@.len(),
                response_views(responses@) == reflexes(
                    waves_of(memories@),
                    texts_of(frequency_labels@),
                    threat_strengths@,
                    i as nat,
                ),
            decreases memories@.len() - i,
        {
            let wave: &Arc<MemoryWave> = &memories[i];
            if wave.arousal.gt(Scalar::from_bits(AROUSAL_ALERT)) {
                let ghost before = response_views(responses@);
                let mut trigger: String = "High arousal memory (".to_owned();
                trigger.append(frequency_labels[i].as_str());
                trigger.append("Hz)");
                let response = ReflexiveComponent {
                    trigger,
                    response: "Heightened attention".to_owned(),
                    strength: wave.arousal,
                };
                responses.push(response);
                assert(response_views(responses@) =~= before.push(
                    alert_response(**wave, frequency_labels@[i as int]@),
                ));
            }
            if wave.valence.lt(Scalar::from_bits(VALENCE_THREAT)) && wave.amplitude.gt(
                Scalar::from_bits(AMPLITUDE_STRONG),
            ) {
                let ghost before = response_views(responses@);
                let response = ReflexiveComponent {
                    trigger: "Negative high-amplitude memory".to_owned(),
                    response: "Defensive stance".to_owned(),
                    strength: threat_strengths[i],
                };
                responses.push(response);
                assert(response_views(responses@) =~= before.push(
                    defense_response(threat_strengths@[i as int]),
                ));
            }
            i = i + 1;
        }
        responses
    }

    /// The active waves at clock reading `now`: the waves sampled where
    /// attention is high, as far as decay has left more than a tenth of
    /// them.
    pub fn collect_active_memories<A: Fn(Operation) -> Scalar>(
        &self,
        grid: &WaveGrid,
        weights: &AttentionWeights,
        now: TimeSpan,
        arithmetic: &A,
    ) -> (active: Vec<Arc<MemoryWave>>)
        requires
            total(*arithmetic),
        ensures
            active_of(*arithmetic, grid@, weights@, now, waves_of(active@)),
    {
        let sampled: Vec<Arc<MemoryWave>> = self.sample_attended(grid, weights);
        let decays: Vec<Scalar> = decays_at(&sampled, now, arithmetic);
        let active: Vec<Arc<MemoryWave>> = self.retain_active(&sampled, &decays);
        proof {
            assert(readings(decays@));
        }
        active
    }

    /// Lets the attention weights follow the active waves: every weight
    /// decays by the factor 0.95, every active wave raises the weight of
    /// the region its frequency belongs to by 0.1, and the weights are
    /// brought to a sum of one unless their sum is zero.
    pub fn update_attention_weights<A: Fn(Operation) -> Scalar>(
        &self,
        weights: &mut AttentionWeights,
        memories: &Vec<Arc<MemoryWave>>,
        arithmetic: &A,
    )
        requires
            total(*arithmetic),
            old(weights).wf(),
        ensures
            final(weights).wf(),
            exists|decayed: Seq<(RegionView, Scalar)>, boosted: Seq<(RegionView, Scalar)>|
                #![trigger stage(decayed), stage(boosted)]
                stage(decayed) && stage(boosted) && decayed_weights(
                    *arithmetic,
                    old(weights)@,
                    decayed,
                ) && boosted_weights(
                    *arithmetic,
                    decayed,
                    boosted_regions(waves_of(memories@)),
                    memories@.len(),
                    boosted,
                ) && normalized_weights(*arithmetic, boosted, final(weights)@),
    {
        weights.decay(arithmetic);
        let ghost decayed = weights@;
        self.boost_attention(weights, memories, arithmetic);
        let ghost boosted = weights@;
        weights.normalize(arithmetic);
        proof {
            assert(stage(decayed) && stage(boosted));
        }
    }

    /// Lets every active wave raise the weight of the region its
    /// frequency belongs to by 0.1, wave after wave.
    pub fn boost_attention<A: Fn(Operation) -> Scalar>(
        &self,
        weights: &mut AttentionWeights,
        memories: &Vec<Arc<MemoryWave>>,
        arithmetic: &A,
    )
        requires
            total(*arithmetic),
            old(weights).wf(),
        ensures
            final(weights).wf(),
            boosted_weights(
                *arithmetic,
                old(weights)@,
                boosted_regions(waves_of(memories@)),
                memories@.len(),
                final(weights)@,
            ),
    {
        let ghost regions = boosted_regions(waves_of(memories@));
        let mut i: usize = 0;
        while i < memories.len()
            invariant
                i <= memories@.len(),
                total(*arithmetic),
                weights.wf(),
                regions == boosted_regions(waves_of(memories@)),
                boosted_weights(*arithmetic, old(weights)@, regions, i as nat, weights@),
            decreases memories@.len() - i,
        {
            let ghost middle = weights@;
            let band: FrequencyBand = FrequencyBand::from_frequency(memories[i].frequency);
            let region: MemoryRegion = region_of_band(band);
            assert(region@ == regions[i as int]);
            weights.boost(region, arithmetic);
            proof {
                assert(stage(middle));
            }
            i = i + 1;
        }
    }

    /// The responses the active waves set off. A wave of arousal above 0.7
    /// sets off heightened attention, as strong as its arousal; a wave of
    /// valence below -0.5 and amplitude above 0.8 sets off a defensive
    /// stance, as strong as its amplitude times the size of its valence.
    /// `describe` writes out a frequency for the trigger of a response.
    pub fn generate_reflexive_responses<A: Fn(Operation) -> Scalar, D: Fn(Scalar) -> String>(
        &self,
        memories: &Vec<Arc<MemoryWave>>,
        arithmetic: &A,
        describe: &D,
    ) -> (responses: Vec<ReflexiveComponent>)
        requires
            total(*arithmetic),
            describes_all(*describe),
        ensures
            responses_of(*arithmetic, *describe, waves_of(memories@), response_views(responses@)),
    {
        let mut labels: Vec<String> = Vec::with_capacity(memories.len());
        let mut strengths: Vec<Scalar> = Vec::with_capacity(memories.len());
        let mut i: usize = 0;
        while i < memories.len()
            invariant
                i <= memories@.len(),
                total(*arithmetic),
                describes_all(*describe),
                labels@.len() == i,
                strengths@.len() == i,
                forall|j: int|
                    0 <= j < i ==> described(
                        *describe,
                        waves_of(memories@)[j],
                        #[trigger] texts_of(labels@)[j],
                    ),
                forall|j: int|
                    0 <= j < i ==> evaluates(
                        *arithmetic,
                        threat_formula(waves_of(memories@)[j]),
                        #[trigger] strengths@[j],
                    ),
            decreases memories@.len() - i,
        {
            let wave: &Arc<MemoryWave> = &memories[i];
            let label: String = describe(wave.frequency);
            let strength: Term = Term::of(wave.amplitude).times(
                &Term::of(wave.valence.abs()),
                arithmetic,
            );
            let ghost labels_before = texts_of(labels@);
            proof {
                assert(described(*describe, waves_of(memories@)[i as int], label@));
            }
            labels.push(label);
            strengths.push(strength.value);
            proof {
                assert(texts_of(labels@) =~= labels_before.push(label@));
            }
            i = i + 1;
        }
        let responses: Vec<ReflexiveComponent> = self.reflexive_responses_from(
            memories,
            &labels,
            &strengths,
        );
        proof {
            assert(inputs_of(
                *arithmetic,
                *describe,
                waves_of(memories@),
                texts_of(labels@),
                strengths@,
            ));
        }
        responses
    }

    /// One cycle of the engine at clock reading `now`. The attention
    /// weights decay; the grid is sampled where attention is still high
    /// and the sampled waves that have not faded become the active waves;
    /// each of them raises the weight of its region; the weights are
    /// brought to a sum of one; the active waves set off their responses;
    /// and the state takes the active waves and the responses and works
    /// out its awareness.
    pub fn update<A: Fn(Operation) -> Scalar, D: Fn(Scalar) -> String>(
        &self,
        grid: &WaveGrid,
        state: &mut ConsciousnessState,
        now: TimeSpan,
        arithmetic: &A,
        describe: &D,
    )
        requires
            total(*arithmetic),
            describes_all(*describe),
            old(state).attention_weights.wf(),
        ensures
            final(state).attention_weights.wf(),
            final(state).last_update == now,
            exists|decayed: Seq<(RegionView, Scalar)>, boosted: Seq<(RegionView, Scalar)>|
                #![trigger stage(decayed), stage(boosted)]
                stage(decayed) && stage(boosted) && decayed_weights(
                    *arithmetic,
                    old(state).attention_weights@,
                    decayed,
                ) && active_of(
                    *arithmetic,
                    grid@,
                    decayed,
                    now,
                    waves_of(final(state).active_memories@),
                ) && boosted_weights(
                    *arithmetic,
                    decayed,
                    boosted_regions(waves_of(final(state).active_memories@)),
                    final(state).active_memories@.len(),
                    boosted,
                ) && normalized_weights(*arithmetic, boosted, final(state).attention_weights@),
            responses_of(
                *arithmetic,
                *describe,
                waves_of(final(state).active_memories@),
                response_views(final(state).reflexive_responses@),
            ),
            evaluates(
                *arithmetic,
                awareness_formula(
                    final(state).active_memories@.len(),
                    final(state).attention_weights@,
                ),
                final(state).awareness_level,
            ),
    {
        state.attention_weights.decay(arithmetic);
        let ghost decayed = state.attention_weights@;
        let active: Vec<Arc<MemoryWave>> = self.collect_active_memories(
            grid,
            &state.attention_weights,
            now,
            arithmetic,
        );
        self.boost_attention(&mut state.attention_weights, &active, arithmetic);
        let ghost boosted = state.attention_weights@;
        state.attention_weights.normalize(arithmetic);
        let responses: Vec<ReflexiveComponent> = self.generate_reflexive_responses(
            &active,
            arithmetic,
            describe,
        );
        state.update(active, responses, now, arithmetic);
        proof {
            assert(stage(decayed) && stage(boosted));
        }
    }
}

/// The semantic region a frequency band belongs to.
pub fn region_of_band(band: FrequencyBand) -> (region: MemoryRegion)
    ensures
        region@ == RegionView::Semantic(band_region_name(band)),
{
    let name: &str = match band {
        FrequencyBand::DeepStructural => "structural",
        FrequencyBand::Conversational => "conversational",
        FrequencyBand::Technical => "technical",
        FrequencyBand::Implementation => "implementation",
        FrequencyBand::Abstract => "abstract",
        FrequencyBand::Beta => "beta_awareness",
        FrequencyBand::Gamma => "gamma_consciousness",
    };
    MemoryRegion::Semantic(name.to_owned())
}

/// Adds the waves of the first hundred layers of the column at `(x, y)`.
fn sample_column(grid: &WaveGrid, x: u8, y: u8, sampled: &mut Vec<Arc<MemoryWave>>)
    ensures
        waves_of(final(sampled)@) == waves_of(old(sampled)@) + visual_samples(
            grid@,
            x as int,
            y as int,
            VISUAL_LAYERS as nat,
        ),
{
    let mut z: u16 = 0;
    assert(waves_of(sampled@) =~= waves_of(old(sampled)@) + Seq::<MemoryWave>::empty());
    while z < VISUAL_LAYERS
        invariant
            z <= VISUAL_LAYERS,
            waves_of(sampled@) == waves_of(old(sampled)@) + visual_samples(
                grid@,
                x as int,
                y as int,
                z as nat,
            ),
        decreases VISUAL_LAYERS - z,
    {
        let ghost before = waves_of(sampled@);
        match grid.get(x, y, z) {
            Some(handle) => {
                sampled.push(share(handle));
                assert(waves_of(sampled@) =~= before.push(**handle));
                assert(waves_of(sampled@) =~= waves_of(old(sampled)@) + visual_samples(
                    grid@,
                    x as int,
                    y as int,
                    (z + 1) as nat,
                ));
            },
            None => {},
        }
        z = z + 1;
    }
}

/// Adds the waves of every sixteenth cell of layer `z`.
fn sample_layer(grid: &WaveGrid, z: u16, sampled: &mut Vec<Arc<MemoryWave>>)
    ensures
        waves_of(final(sampled)@) == waves_of(old(sampled)@) + temporal_samples(
            grid@,
            z as int,
            TEMPORAL_CELLS as nat,
        ),
{
    let mut cell: u16 = 0;
    assert(waves_of(sampled@) =~= waves_of(old(sampled)@) + Seq::<MemoryWave>::empty());
    while cell < TEMPORAL_CELLS
        invariant
            cell <= TEMPORAL_CELLS,
            waves_of(sampled@) == waves_of(old(sampled)@) + temporal_samples(
                grid@,
                z as int,
                cell as nat,
            ),
        decreases TEMPORAL_CELLS - cell,
    {
        let ghost before = waves_of(sampled@);
        let x: u8 = ((cell / TEMPORAL_STEPS) * TEMPORAL_STRIDE) as u8;
        let y: u8 = ((cell % TEMPORAL_STEPS) * TEMPORAL_STRIDE) as u8;
        match grid.get(x, y, z) {
            Some(handle) => {
                sampled.push(share(handle));
                assert(waves_of(sampled@) =~= before.push(**handle));
                assert(waves_of(sampled@) =~= waves_of(old(sampled)@) + temporal_samples(
                    grid@,
                    z as int,
                    (cell + 1) as nat,
                ));
            },
            None => {},
        }
        cell = cell + 1;
    }
}

/// A cycle without active waves gives no region a boost and adds no
/// region: after the boosts the weights are the decayed weights, so every
/// region keeps its place and its weight is the old one times 0.95, before
/// the weights are brought to a sum of one.
pub proof fn lemma_idle_cycle_only_decays<A: Fn(Operation) -> Scalar>(
    arithmetic: A,
    before: Seq<(RegionView, Scalar)>,
    decayed: Seq<(RegionView, Scalar)>,
    boosted: Seq<(RegionView, Scalar)>,
)
    requires
        decayed_weights(arithmetic, before, decayed),
        boosted_weights(
            arithmetic,
            decayed,
            boosted_regions(Seq::<MemoryWave>::empty()),
            0,
            boosted,
        ),
    ensures
        boosted == decayed,
        boosted.len() == before.len(),
        forall|i: int|
            0 <= i < before.len() ==> (#[trigger] boosted[i]).0 == before[i].0 && evaluates(
                arithmetic,
                product(value(before[i].1), constant(ATTENTION_DECAY)),
                boosted[i].1,
            ),
{
}

} // verus!
