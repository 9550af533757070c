//! Batch evaluation.
//!
//! Many waves, amplitudes or grid cells are evaluated per call in batches of
//! a fixed size; what is left over below one batch goes through the path
//! for single items. Batching changes how fast the work is done and never
//! what comes out: every result is a value of the same formula that the
//! path for single items evaluates.

use vstd::prelude::*;
use crate::arithmetic::Binary;
use crate::arithmetic::Formula;
use crate::arithmetic::Operation;
use crate::arithmetic::Term;
use crate::arithmetic::Unary;
use crate::arithmetic::constant;
use crate::arithmetic::deterministic;
use crate::arithmetic::lemma_value_is_unique;
use crate::arithmetic::difference;
use crate::arithmetic::evaluates;
use crate::arithmetic::integer;
use crate::arithmetic::log2;
use crate::arithmetic::operand;
use crate::arithmetic::operands;
use crate::arithmetic::product;
use crate::arithmetic::quotient;
use crate::arithmetic::remainder;
use crate::arithmetic::sum;
use crate::arithmetic::total;
use crate::arithmetic::value;
use crate::scalar::ONE;
use crate::scalar::Scalar;
use crate::scalar::ZERO;
use crate::timespan::TimeSpan;
use crate::wave::GridView;
use crate::wave::MemoryWave;
use crate::wave::TWO_PI;
use crate::wave::WaveGrid;
use crate::wave::interference_formula;
use crate::wave::NEIGHBORHOOD;

verus! {

/// Items per batch when waves are evaluated or amplitudes quantized.
pub const VALUE_BATCH: usize = 8;

/// Items per batch when emotional modulation or phases are evaluated.
pub const MODULATION_BATCH: usize = 4;

/// Cells along each side of a tile of the grid.
pub const TILE: usize = 8;

/// Bit pattern of `255.0`, the highest quantized amplitude.
pub const QUANTIZED_MAX: u32 = 0x437f_0000;

/// Bit pattern of `32.0`, the number of quantization steps per doubling of
/// the amplitude.
pub const STEPS_PER_OCTAVE: u32 = 0x4200_0000;

/// Bit pattern of `2.0`.
pub const TWO: u32 = 0x4000_0000;

/// Bit pattern of pi.
pub const PI: u32 = 0x4049_0fdb;

/// Bit pattern of minus pi.
pub const MINUS_PI: u32 = 0xc049_0fdb;

/// Bit pattern of `6.0`, the divisor of the cubic term of the sine series.
pub const SIX: u32 = 0x40c0_0000;

/// Bit pattern of `120.0`, the divisor of the quintic term of the sine
/// series.
pub const HUNDRED_TWENTY: u32 = 0x42f0_0000;

/// The byte that goes with a scaled logarithm: zero for an amplitude of
/// zero or less, otherwise the scaled logarithm limited to `[0, 255]`
/// without its fractional part.
pub open spec fn quantized(amplitude: Scalar, scaled_log: Scalar) -> u8 {
    if amplitude.spec_le(Scalar::from_bits(ZERO)) {
        0
    } else {
        scaled_log.spec_clamp(
            Scalar::from_bits(ZERO),
            Scalar::from_bits(QUANTIZED_MAX),
        ).spec_to_u8()
    }
}

/// Thirty-two times the logarithm to base two of an amplitude.
pub open spec fn scaled_log_formula(amplitude: Scalar) -> Formula {
    product(constant(STEPS_PER_OCTAVE), log2(value(amplitude)))
}

/// Whether `level` is the byte an amplitude is quantized to: zero for an
/// amplitude of zero or less, otherwise the byte that goes with a value
/// that the arithmetic gives to the amplitude's scaled logarithm.
pub open spec fn quantizes<A: Fn(Operation) -> Scalar>(
    arithmetic: A,
    amplitude: Scalar,
    level: u8,
) -> bool {
    if amplitude.spec_le(Scalar::from_bits(ZERO)) {
        level == 0
    } else {
        exists|scaled_log: Scalar|
            #![trigger operand(scaled_log)]
            operand(scaled_log) && evaluates(
                arithmetic,
                scaled_log_formula(amplitude),
                scaled_log,
            ) && level == quantized(amplitude, scaled_log)
    }
}

/// The byte that goes with an amplitude and its scaled logarithm.
pub fn quantize_scaled(amplitude: Scalar, scaled_log: Scalar) -> (level: u8)
    ensures
        level == quantized(amplitude, scaled_log),
{
    if amplitude.le(Scalar::from_bits(ZERO)) {
        0
    } else {
        scaled_log.clamp(Scalar::from_bits(ZERO), Scalar::from_bits(QUANTIZED_MAX)).to_u8()
    }
}

/// Quantizes an amplitude on a logarithmic scale: zero for an amplitude of
/// zero or less, otherwise thirty-two times its logarithm to base two,
/// limited to `[0, 255]`, without its fractional part.
pub fn quantize_amplitude<A: Fn(Operation) -> Scalar>(amplitude: Scalar, arithmetic: &A) -> (level:
    u8)
    requires
        total(*arithmetic),
    ensures
        quantizes(*arithmetic, amplitude, level),
        amplitude.spec_le(Scalar::from_bits(ZERO)) ==> level == 0,
{
    if amplitude.le(Scalar::from_bits(ZERO)) {
        0
    } else {
        let scaled_log: Term = Term::constant(STEPS_PER_OCTAVE).times(
            &Term::of(amplitude).unary(Unary::Log2, arithmetic),
            arithmetic,
        );
        proof {
            assert(operand(scaled_log.value));
        }
        quantize_scaled(amplitude, scaled_log.value)
    }
}

/// An amplitude of zero is quantized to zero, under any arithmetic.
pub proof fn lemma_quantized_zero<A: Fn(Operation) -> Scalar>(arithmetic: A, level: u8)
    requires
        quantizes(arithmetic, Scalar::from_bits(ZERO), level),
    ensures
        level == 0,
{
}

/// Quantization never reverses an order: of two amplitudes above zero, the
/// one with the larger scaled logarithm is quantized to the larger byte or
/// to the same.
pub proof fn lemma_quantized_monotone(
    amplitude: Scalar,
    scaled_log: Scalar,
    larger_amplitude: Scalar,
    larger_scaled_log: Scalar,
)
    requires
        amplitude.spec_gt(Scalar::from_bits(ZERO)),
        larger_amplitude.spec_gt(Scalar::from_bits(ZERO)),
        scaled_log.spec_le(larger_scaled_log),
    ensures
        quantized(amplitude, scaled_log) <= quantized(larger_amplitude, larger_scaled_log),
{
    let low = Scalar::from_bits(ZERO);
    let high = Scalar::from_bits(QUANTIZED_MAX);
    crate::scalar::lemma_to_u8_monotone(
        scaled_log.spec_clamp(low, high),
        larger_scaled_log.spec_clamp(low, high),
    );
}

/// Whether the arithmetic keeps the order of amplitudes above zero in
/// their scaled logarithms, as the logarithm and the product of
/// single-precision arithmetic do.
pub open spec fn logarithm_keeps_order<A: Fn(Operation) -> Scalar>(arithmetic: A) -> bool {
    forall|lower: Scalar, higher: Scalar, lower_log: Scalar, higher_log: Scalar|
        #![trigger evaluates(arithmetic, scaled_log_formula(lower), lower_log), evaluates(arithmetic, scaled_log_formula(higher), higher_log)]
        lower.spec_gt(Scalar::from_bits(ZERO)) && lower.spec_le(higher) && evaluates(
            arithmetic,
            scaled_log_formula(lower),
            lower_log,
        ) && evaluates(arithmetic, scaled_log_formula(higher), higher_log) ==> lower_log.spec_le(
            higher_log,
        )
}

/// Quantization never reverses the order of two amplitudes above zero,
/// under an arithmetic whose scaled logarithm keeps their order.
pub proof fn lemma_quantization_keeps_order<A: Fn(Operation) -> Scalar>(
    arithmetic: A,
    lower: Scalar,
    higher: Scalar,
    lower_level: u8,
    higher_level: u8,
)
    requires
        logarithm_keeps_order(arithmetic),
        lower.spec_gt(Scalar::from_bits(ZERO)),
        lower.spec_le(higher),
        quantizes(arithmetic, lower, lower_level),
        quantizes(arithmetic, higher, higher_level),
    ensures
        lower_level <= higher_level,
{
    let lower_log = choose|scaled_log: Scalar|
        operand(scaled_log) && evaluates(arithmetic, scaled_log_formula(lower), scaled_log)
            && lower_level == quantized(lower, scaled_log);
    let higher_log = choose|scaled_log: Scalar|
        operand(scaled_log) && evaluates(arithmetic, scaled_log_formula(higher), scaled_log)
            && higher_level == quantized(higher, scaled_log);
    lemma_quantized_monotone(lower, lower_log, higher, higher_log);
}

/// The interference at a point of the grid at time `t`: what
/// [`WaveGrid::calculate_interference`] evaluates there.
pub open spec fn point_formula(
    grid: GridView,
    x: int,
    y: int,
    z: int,
    t: Scalar,
    now: TimeSpan,
) -> Formula {
    interference_formula(
        grid.neighbors(x, y, z, NEIGHBORHOOD as nat),
        t,
        now,
        grid.neighbors(x, y, z, NEIGHBORHOOD as nat).len(),
    )
}

/// The phase of a timestamp against a reference time:
/// `((timestamp - reference) * 2 * pi) % (2 pi)`.
pub open spec fn phase_formula(timestamp: Scalar, reference: Scalar) -> Formula {
    remainder(
        product(
            product(difference(value(timestamp), value(reference)), constant(TWO)),
            constant(PI),
        ),
        constant(TWO_PI),
    )
}

/// An angle brought into the range of the sine series, given its
/// remainder modulo two pi: less two pi when the remainder is above pi,
/// plus two pi when it is below minus pi, and the remainder itself
/// otherwise.
pub open spec fn reduced_formula(wrapped: Scalar) -> Formula {
    if wrapped.spec_gt(Scalar::from_bits(PI)) {
        difference(value(wrapped), constant(TWO_PI))
    } else if wrapped.spec_lt(Scalar::from_bits(MINUS_PI)) {
        sum(value(wrapped), constant(TWO_PI))
    } else {
        value(wrapped)
    }
}

/// The first three terms of the sine series: `x - x^3 / 6 + x^5 / 120`.
pub open spec fn series_formula(x: Scalar) -> Formula {
    let square = product(value(x), value(x));
    let cube = product(square, value(x));
    let fifth = product(cube, square);
    sum(difference(value(x), quotient(cube, constant(SIX))), quotient(fifth, constant(HUNDRED_TWENTY)))
}

/// Whether `result` is an approximate sine of `x`: the sine series at the
/// angle brought into range.
pub open spec fn approximates_sine<A: Fn(Operation) -> Scalar>(
    arithmetic: A,
    x: Scalar,
    result: Scalar,
) -> bool {
    exists|wrapped: Scalar, reduced: Scalar|
        #![trigger operands(wrapped, reduced)]
        operands(wrapped, reduced) && evaluates(
            arithmetic,
            remainder(value(x), constant(TWO_PI)),
            wrapped,
        ) && evaluates(arithmetic, reduced_formula(wrapped), reduced) && evaluates(
            arithmetic,
            series_formula(reduced),
            result,
        )
}

/// The angle of a wave at time `t`: `2 pi frequency t + phase`.
pub open spec fn angle_formula(wave: MemoryWave, t: Scalar) -> Formula {
    sum(product(product(constant(TWO_PI), value(wave.frequency)), value(t)), value(wave.phase))
}

/// The value of a wave, given the sine of its angle:
/// `amplitude * decay * modulation * sine`.
pub open spec fn scaled_sine_formula(wave: MemoryWave, now: TimeSpan, sine: Scalar) -> Formula {
    product(
        product(product(value(wave.amplitude), wave.decay_formula(now)), wave.modulation_formula()),
        value(sine),
    )
}

/// Whether `result` is the value of a wave at time `t` with the sine of
/// its angle approximated by the sine series.
pub open spec fn approximates_value<A: Fn(Operation) -> Scalar>(
    arithmetic: A,
    wave: MemoryWave,
    t: Scalar,
    now: TimeSpan,
    result: Scalar,
) -> bool {
    exists|angle: Scalar, sine: Scalar|
        #![trigger operands(angle, sine)]
        operands(angle, sine) && evaluates(arithmetic, angle_formula(wave, t), angle)
            && approximates_sine(arithmetic, angle, sine) && evaluates(
            arithmetic,
            scaled_sine_formula(wave, now, sine),
            result,
        )
}

/// An approximate sine: the angle is brought into `[-pi, pi]` and put into
/// the first three terms of the sine series.
pub fn fast_sin<A: Fn(Operation) -> Scalar>(x: Scalar, arithmetic: &A) -> (result: Scalar)
    requires
        total(*arithmetic),
    ensures
        approximates_sine(*arithmetic, x, result),
{
    let two_pi: Term = Term::constant(TWO_PI);
    let wrapped: Term = Term::of(x).modulo(&two_pi, arithmetic);
    let reduced: Scalar = if wrapped.value.gt(Scalar::from_bits(PI)) {
        Term::of(wrapped.value).minus(&two_pi, arithmetic).value
    } else if wrapped.value.lt(Scalar::from_bits(MINUS_PI)) {
        Term::of(wrapped.value).plus(&two_pi, arithmetic).value
    } else {
        wrapped.value
    };
    let angle: Term = Term::of(reduced);
    let square: Term = angle.times(&angle, arithmetic);
    let cube: Term = square.times(&angle, arithmetic);
    let fifth: Term = cube.times(&square, arithmetic);
    let result: Term = angle.minus(&cube.over(&Term::constant(SIX), arithmetic), arithmetic).plus(
        &fifth.over(&Term::constant(HUNDRED_TWENTY), arithmetic),
        arithmetic,
    );
    proof {
        assert(operands(wrapped.value, reduced));
    }
    result.value
}

/// Whether `values` holds, for each of the waves, a value that the
/// arithmetic gives to the wave at time `t`.
pub open spec fn values_of<A: Fn(Operation) -> Scalar>(
    arithmetic: A,
    waves: Seq<MemoryWave>,
    t: Scalar,
    now: TimeSpan,
    values: Seq<Scalar>,
) -> bool {
    &&& values.len() == waves.len()
    &&& forall|i: int|
        0 <= i < waves.len() ==> evaluates(
            arithmetic,
            waves[i].value_formula(t, now),
            #[trigger] values[i],
        )
}

/// Whether `modulations` holds, for each of the waves, a value that the
/// arithmetic gives to its emotional modulation.
pub open spec fn modulations_of<A: Fn(Operation) -> Scalar>(
    arithmetic: A,
    waves: Seq<MemoryWave>,
    modulations: Seq<Scalar>,
) -> bool {
    &&& modulations.len() == waves.len()
    &&& forall|i: int|
        0 <= i < waves.len() ==> evaluates(
            arithmetic,
            waves[i].modulation_formula(),
            #[trigger] modulations[i],
        )
}

/// Whether `tile` holds the interference at the eight by eight cells of
/// layer `z` whose corner is at `(base_x, base_y)`, row by row.
pub open spec fn tile_of<A: Fn(Operation) -> Scalar>(
    arithmetic: A,
    grid: GridView,
    base_x: int,
    base_y: int,
    z: int,
    t: Scalar,
    now: TimeSpan,
    tile: Vec<Vec<Scalar>>,
) -> bool {
    &&& tile@.len() == TILE
    &&& forall|dy: int| 0 <= dy < TILE ==> (#[trigger] tile@[dy])@.len() == TILE
    &&& forall|dy: int, dx: int|
        0 <= dy < TILE && 0 <= dx < TILE ==> evaluates(
            arithmetic,
            point_formula(grid, base_x + dx, base_y + dy, z, t, now),
            #[trigger] tile@[dy]@[dx],
        )
}

/// Whether `tiles` are the tiles that cover the rows from `base_y` on,
/// side by side from the first column to the grid's width.
pub open spec fn band_of<A: Fn(Operation) -> Scalar>(
    arithmetic: A,
    grid: GridView,
    base_y: int,
    z: int,
    t: Scalar,
    now: TimeSpan,
    tiles: Seq<Vec<Vec<Scalar>>>,
) -> bool {
    &&& tiles.len() * TILE >= grid.width
    &&& forall|k: int|
        0 <= k < tiles.len() ==> tile_of(
            arithmetic,
            grid,
            k * TILE,
            base_y,
            z,
            t,
            now,
            #[trigger] tiles[k],
        )
}

/// Whether `layer` holds the interference at all cells of layer `z`, row
/// by row.
pub open spec fn layer_of<A: Fn(Operation) -> Scalar>(
    arithmetic: A,
    grid: GridView,
    z: int,
    t: Scalar,
    now: TimeSpan,
    layer: Seq<Vec<Scalar>>,
) -> bool {
    &&& layer.len() == grid.height
    &&& forall|y: int| 0 <= y < grid.height ==> (#[trigger] layer[y])@.len() == grid.width
    &&& forall|y: int, x: int|
        0 <= y < grid.height && 0 <= x < grid.width ==> evaluates(
            arithmetic,
            point_formula(grid, x, y, z, t, now),
            #[trigger] layer[y]@[x],
        )
}

/// Batching changes nothing: under an arithmetic that returns one result
/// only for each operation, the values that the batched path gives for a
/// sequence of waves are the values that the path for single waves gives,
/// wave by wave.
pub proof fn lemma_batch_equals_single<A: Fn(Operation) -> Scalar>(
    arithmetic: A,
    waves: Seq<MemoryWave>,
    t: Scalar,
    now: TimeSpan,
    batched: Seq<Scalar>,
    single: Seq<Scalar>,
)
    requires
        deterministic(arithmetic),
        values_of(arithmetic, waves, t, now, batched),
        values_of(arithmetic, waves, t, now, single),
    ensures
        batched == single,
{
    assert forall|i: int| 0 <= i < waves.len() implies batched[i] == single[i] by {
        lemma_value_is_unique(arithmetic, waves[i].value_formula(t, now), batched[i], single[i]);
    }
    assert(batched =~= single);
}

/// Batching changes nothing for emotional modulation either.
pub proof fn lemma_batch_modulation_equals_single<A: Fn(Operation) -> Scalar>(
    arithmetic: A,
    waves: Seq<MemoryWave>,
    batched: Seq<Scalar>,
    single: Seq<Scalar>,
)
    requires
        deterministic(arithmetic),
        modulations_of(arithmetic, waves, batched),
        modulations_of(arithmetic, waves, single),
    ensures
        batched == single,
{
    assert forall|i: int| 0 <= i < waves.len() implies batched[i] == single[i] by {
        lemma_value_is_unique(arithmetic, waves[i].modulation_formula(), batched[i], single[i]);
    }
    assert(batched =~= single);
}

/// Batching changes nothing for quantization: under an arithmetic that
/// returns one result only for each operation, an amplitude is quantized
/// to one byte only.
pub proof fn lemma_quantization_is_unique<A: Fn(Operation) -> Scalar>(
    arithmetic: A,
    amplitude: Scalar,
    first: u8,
    second: u8,
)
    requires
        deterministic(arithmetic),
        quantizes(arithmetic, amplitude, first),
        quantizes(arithmetic, amplitude, second),
    ensures
        first == second,
{
    if !amplitude.spec_le(Scalar::from_bits(ZERO)) {
        let one = choose|scaled_log: Scalar|
            operand(scaled_log) && evaluates(arithmetic, scaled_log_formula(amplitude), scaled_log)
                && first == quantized(amplitude, scaled_log);
        let other = choose|scaled_log: Scalar|
            operand(scaled_log) && evaluates(arithmetic, scaled_log_formula(amplitude), scaled_log)
                && second == quantized(amplitude, scaled_log);
        lemma_value_is_unique(arithmetic, scaled_log_formula(amplitude), one, other);
    }
}

/// Evaluates items in batches.
pub struct SimdWaveProcessor {
    vector_width: usize,
}

impl SimdWaveProcessor {
    /// A processor that takes eight items per batch.
    pub fn new() -> (processor: SimdWaveProcessor)
        ensures
            processor.vector_width() == VALUE_BATCH,
    {
        SimdWaveProcessor { vector_width: VALUE_BATCH }
    }

    /// Items per batch.
    pub closed spec fn vector_width(&self) -> usize {
        self.vector_width
    }

    /// The value of every wave at time `t`, evaluated in batches of eight.
    /// Every result is a value of the formula that
    /// [`MemoryWave::calculate`] evaluates for the wave at its place.
    pub fn calculate_waves_simd<A: Fn(Operation) -> Scalar>(
        &self,
        waves: &Vec<MemoryWave>,
        t: Scalar,
        now: TimeSpan,
        arithmetic: &A,
    ) -> (values: Vec<Scalar>)
        requires
            total(*arithmetic),
        ensures
            values_of(*arithmetic, waves@, t, now, values@),
    {
        let count: usize = waves.len();
        let mut values: Vec<Scalar> = Vec::with_capacity(count);
        let mut start: usize = 0;
        while count - start >= VALUE_BATCH
            invariant
                start <= count,
                count == waves@.len(),
                total(*arithmetic),
                values_of(*arithmetic, waves@.take(start as int), t, now, values@),
            decreases count - start,
        {
            let r0: Scalar = waves[start].calculate(t, now, arithmetic);
            let r1: Scalar = waves[start + 1].calculate(t, now, arithmetic);
            let r2: Scalar = waves[start + 2].calculate(t, now, arithmetic);
            let r3: Scalar = waves[start + 3].calculate(t, now, arithmetic);
            let r4: Scalar = waves[start + 4].calculate(t, now, arithmetic);
            let r5: Scalar = waves[start + 5].calculate(t, now, arithmetic);
            let r6: Scalar = waves[start + 6].calculate(t, now, arithmetic);
            let r7: Scalar = waves[start + 7].calculate(t, now, arithmetic);
            values.push(r0);
            values.push(r1);
            values.push(r2);
            values.push(r3);
            values.push(r4);
            values.push(r5);
            values.push(r6);
            values.push(r7);
            start = start + VALUE_BATCH;
        }
        while start < count
            invariant
                start <= count,
                count == waves@.len(),
                total(*arithmetic),
                values_of(*arithmetic, waves@.take(start as int), t, now, values@),
            decreases count - start,
        {
            values.push(waves[start].calculate(t, now, arithmetic));
            start = start + 1;
        }
        assert(waves@.take(start as int) =~= waves@);
        values
    }

    /// The interference at the eight by eight cells of layer `z` whose
    /// corner is at `(base_x, base_y)`, row by row, at time `t`. Every
    /// result is a value of the formula that
    /// [`WaveGrid::calculate_interference`] evaluates at the cell.
    pub fn calculate_interference_block_simd<A: Fn(Operation) -> Scalar>(
        &self,
        grid: &WaveGrid,
        base_x: u8,
        base_y: u8,
        z: u16,
        t: Scalar,
        now: TimeSpan,
        arithmetic: &A,
    ) -> (tile: Vec<Vec<Scalar>>)
        requires
            base_x as int + TILE <= 256,
            base_y as int + TILE <= 256,
            total(*arithmetic),
        ensures
            tile_of(*arithmetic, grid@, base_x as int, base_y as int, z as int, t, now, tile),
    {
        let mut tile: Vec<Vec<Scalar>> = Vec::with_capacity(TILE);
        let mut dy: u8 = 0;
        while dy < 8
            invariant
                dy <= 8,
                base_x as int + TILE <= 256,
                base_y as int + TILE <= 256,
                total(*arithmetic),
                tile@.len() == dy,
                forall|row: int| 0 <= row < dy ==> (#[trigger] tile@[row])@.len() == TILE,
                forall|row: int, dx: int|
                    0 <= row < dy && 0 <= dx < TILE ==> evaluates(
                        *arithmetic,
                        point_formula(grid@, base_x + dx, base_y + row, z as int, t, now),
                        #[trigger] tile@[row]@[dx],
                    ),
            decreases 8 - dy,
        {
            let y: u8 = base_y + dy;
            let v0: Scalar = grid.calculate_interference(base_x, y, z, t, now, arithmetic);
            let v1: Scalar = grid.calculate_interference(base_x + 1, y, z, t, now, arithmetic);
            let v2: Scalar = grid.calculate_interference(base_x + 2, y, z, t, now, arithmetic);
            let v3: Scalar = grid.calculate_interference(base_x + 3, y, z, t, now, arithmetic);
            let v4: Scalar = grid.calculate_interference(base_x + 4, y, z, t, now, arithmetic);
            let v5: Scalar = grid.calculate_interference(base_x + 5, y, z, t, now, arithmetic);
            let v6: Scalar = grid.calculate_interference(base_x + 6, y, z, t, now, arithmetic);
            let v7: Scalar = grid.calculate_interference(base_x + 7, y, z, t, now, arithmetic);
            let mut row: Vec<Scalar> = Vec::with_capacity(TILE);
            row.push(v0);
            row.push(v1);
            row.push(v2);
            row.push(v3);
            row.push(v4);
            row.push(v5);
            row.push(v6);
            row.push(v7);
            tile.push(row);
            dy = dy + 1;
        }
        tile
    }

    /// Quantizes amplitudes in batches of eight. Every byte is one that
    /// [`quantize_amplitude`] gives for the amplitude at its place.
    pub fn quantize_amplitudes_simd<A: Fn(Operation) -> Scalar>(
        &self,
        amplitudes: &Vec<Scalar>,
        arithmetic: &A,
    ) -> (levels: Vec<u8>)
        requires
            total(*arithmetic),
        ensures
            levels@.len() == amplitudes@.len(),
            forall|i: int|
                0 <= i < amplitudes@.len() ==> quantizes(
                    *arithmetic,
                    amplitudes@[i],
                    #[trigger] levels@[i],
                ),
    {
        let count: usize = amplitudes.len();
        let mut levels: Vec<u8> = Vec::with_capacity(count);
        let mut start: usize = 0;
        while count - start >= VALUE_BATCH
            invariant
                start <= count,
                count == amplitudes@.len(),
                total(*arithmetic),
                levels@.len() == start,
                forall|i: int|
                    0 <= i < start ==> quantizes(
                        *arithmetic,
                        amplitudes@[i],
                        #[trigger] levels@[i],
                    ),
            decreases count - start,
        {
            let q0: u8 = quantize_amplitude(amplitudes[start], arithmetic);
            let q1: u8 = quantize_amplitude(amplitudes[start + 1], arithmetic);
            let q2: u8 = quantize_amplitude(amplitudes[start + 2], arithmetic);
            let q3: u8 = quantize_amplitude(amplitudes[start + 3], arithmetic);
            let q4: u8 = quantize_amplitude(amplitudes[start + 4], arithmetic);
            let q5: u8 = quantize_amplitude(amplitudes[start + 5], arithmetic);
            let q6: u8 = quantize_amplitude(amplitudes[start + 6], arithmetic);
            let q7: u8 = quantize_amplitude(amplitudes[start + 7], arithmetic);
            levels.push(q0);
            levels.push(q1);
            levels.push(q2);
            levels.push(q3);
            levels.push(q4);
            levels.push(q5);
            levels.push(q6);
            levels.push(q7);
            start = start + VALUE_BATCH;
        }
        while start < count
            invariant
                start <= count,
                count == amplitudes@.len(),
                total(*arithmetic),
                levels@.len() == start,
                forall|i: int|
                    0 <= i < start ==> quantizes(
                        *arithmetic,
                        amplitudes@[i],
                        #[trigger] levels@[i],
                    ),
            decreases count - start,
        {
            levels.push(quantize_amplitude(amplitudes[start], arithmetic));
            start = start + 1;
        }
        levels
    }

    /// The emotional modulation of every wave, evaluated in batches of
    /// four. Every result is a value of the formula that
    /// [`MemoryWave::calculate_emotional_modulation`] evaluates for the
    /// wave at its place.
    pub fn calculate_emotional_modulation_simd<A: Fn(Operation) -> Scalar>(
        &self,
        waves: &Vec<MemoryWave>,
        arithmetic: &A,
    ) -> (modulations: Vec<Scalar>)
        requires
            total(*arithmetic),
        ensures
            modulations_of(*arithmetic, waves@, modulations@),
    {
        let count: usize = waves.len();
        let mut modulations: Vec<Scalar> = Vec::with_capacity(count);
        let mut start: usize = 0;
        while count - start >= MODULATION_BATCH
            invariant
                start <= count,
                count == waves@.len(),
                total(*arithmetic),
                modulations_of(*arithmetic, waves@.take(start as int), modulations@),
            decreases count - start,
        {
            let m0: Scalar = waves[start].calculate_emotional_modulation(arithmetic);
            let m1: Scalar = waves[start + 1].calculate_emotional_modulation(arithmetic);
            let m2: Scalar = waves[start + 2].calculate_emotional_modulation(arithmetic);
            let m3: Scalar = waves[start + 3].calculate_emotional_modulation(arithmetic);
            modulations.push(m0);
            modulations.push(m1);
            modulations.push(m2);
            modulations.push(m3);
            start = start + MODULATION_BATCH;
        }
        while start < count
            invariant
                start <= count,
                count == waves@.len(),
                total(*arithmetic),
                modulations_of(*arithmetic, waves@.take(start as int), modulations@),
            decreases count - start,
        {
            modulations.push(waves[start].calculate_emotional_modulation(arithmetic));
            start = start + 1;
        }
        assert(waves@.take(start as int) =~= waves@);
        modulations
    }

    /// Copies `src` to `dst` block by block.
    pub fn copy_grid_block_aligned(&self, src: &Vec<Scalar>, dst: &mut Vec<Scalar>, block_size: usize)
        requires
            src@.len() == old(dst)@.len(),
            block_size > 0,
            src@.len() as int % (block_size as int) == 0,
        ensures
            final(dst)@ == src@,
    {
        let total: usize = src.len();
        let mut start: usize = 0;
        while start < total
            invariant
                start <= total,
                total == src@.len(),
                dst@.len() == total,
                block_size > 0,
                start as int % (block_size as int) == 0,
                total as int % (block_size as int) == 0,
                forall|i: int| 0 <= i < start ==> #[trigger] dst@[i] == src@[i],
            decreases total - start,
        {
            proof {
                lemma_block_fits(start as int, total as int, block_size as int);
            }
            let end: usize = start + block_size;
            let mut i: usize = start;
            while i < end
                invariant
                    start <= i <= end,
                    end <= total,
                    total == src@.len(),
                    dst@.len() == total,
                    forall|j: int| 0 <= j < i ==> #[trigger] dst@[j] == src@[j],
                decreases end - i,
            {
                dst.set(i, src[i]);
                i = i + 1;
            }
            start = end;
        }
        assert(dst@ =~= src@);
    }
}

/// A block that starts at a multiple of the block size below the end of a
/// whole number of blocks ends at such a multiple inside them.
proof fn lemma_block_fits(start: int, total: int, block_size: int)
    requires
        0 <= start < total,
        block_size > 0,
        start % block_size == 0,
        total % block_size == 0,
    ensures
        start + block_size <= total,
        (start + block_size) % block_size == 0,
{
    assert(start + block_size <= total && (start + block_size) % block_size == 0)
        by (nonlinear_arith)
        requires
            0 <= start < total,
            block_size > 0,
            start % block_size == 0,
            total % block_size == 0,
    ;
}

/// Evaluates whole layers of the grid, tile by tile.
pub struct SimdGridOps {
    processor: SimdWaveProcessor,
}

impl SimdGridOps {
    /// Grid operations on a processor of eight items per batch.
    pub fn new() -> (ops: SimdGridOps)
        ensures
            ops.processor().vector_width() == VALUE_BATCH,
    {
        SimdGridOps { processor: SimdWaveProcessor::new() }
    }

    /// The processor that evaluates the tiles.
    pub closed spec fn processor(&self) -> SimdWaveProcessor {
        self.processor
    }

    /// The interference at all cells of layer `z` at time `t`, row by
    /// row, computed in tiles of eight by eight cells and put together.
    /// Every result is a value of the formula that
    /// [`WaveGrid::calculate_interference`] evaluates at the cell.
    pub fn process_grid_layer<A: Fn(Operation) -> Scalar>(
        &self,
        grid: &WaveGrid,
        z: u16,
        t: Scalar,
        now: TimeSpan,
        arithmetic: &A,
    ) -> (layer: Vec<Vec<Scalar>>)
        requires
            total(*arithmetic),
        ensures
            layer_of(*arithmetic, grid@, z as int, t, now, layer@),
    {
        let height: usize = grid.height();
        let width: usize = grid.width();
        let mut layer: Vec<Vec<Scalar>> = Vec::with_capacity(height);
        let mut block_y: usize = 0;
        while block_y < height
            invariant
                height == grid@.height,
                width == grid@.width,
                0 < height <= 256,
                0 < width <= 256,
                block_y % TILE == 0,
                block_y < height + TILE,
                layer@.len() == if block_y < height {
                    block_y
                } else {
                    height
                },
                total(*arithmetic),
                forall|y: int| 0 <= y < layer@.len() ==> (#[trigger] layer@[y])@.len() == width,
                forall|y: int, x: int|
                    0 <= y < layer@.len() && 0 <= x < width ==> evaluates(
                        *arithmetic,
                        point_formula(grid@, x, y, z as int, t, now),
                        #[trigger] layer@[y]@[x],
                    ),
            decreases height + TILE - block_y,
        {
            let tiles: Vec<Vec<Vec<Scalar>>> = self.band_tiles(grid, block_y, z, t, now, arithmetic);
            let mut dy: usize = 0;
            while dy < TILE && block_y + dy < height
                invariant
                    height == grid@.height,
                    width == grid@.width,
                    0 < height <= 256,
                    0 < width <= 256,
                    block_y % TILE == 0,
                    block_y < height,
                    dy <= TILE,
                    block_y + dy <= height,
                    layer@.len() == block_y + dy,
                    band_of(*arithmetic, grid@, block_y as int, z as int, t, now, tiles@),
                    forall|y: int|
                        0 <= y < layer@.len() ==> (#[trigger] layer@[y])@.len() == width,
                    forall|y: int, x: int|
                        0 <= y < layer@.len() && 0 <= x < width ==> evaluates(
                            *arithmetic,
                            point_formula(grid@, x, y, z as int, t, now),
                            #[trigger] layer@[y]@[x],
                        ),
                decreases TILE - dy,
            {
                let mut row: Vec<Scalar> = Vec::with_capacity(width);
                let mut x: usize = 0;
                while x < width
                    invariant
                        width == grid@.width,
                        0 < width <= 256,
                        x <= width,
                        dy < TILE,
                        block_y + dy < 256,
                        row@.len() == x,
                        band_of(*arithmetic, grid@, block_y as int, z as int, t, now, tiles@),
                        forall|column: int|
                            0 <= column < x ==> evaluates(
                                *arithmetic,
                                point_formula(grid@, column, block_y + dy, z as int, t, now),
                                #[trigger] row@[column],
                            ),
                    decreases width - x,
                {
                    let tile_index: usize = x / TILE;
                    let dx: usize = x % TILE;
                    assert(tile_index * TILE + dx == x);
                    assert(tile_index < tiles@.len());
                    let value: Scalar = tiles[tile_index][dy][dx];
                    assert(evaluates(
                        *arithmetic,
                        point_formula(grid@, tile_index * TILE + dx, block_y + dy, z as int, t, now),
                        tiles@[tile_index as int]@[dy as int]@[dx as int],
                    ));
                    row.push(value);
                    x = x + 1;
                }
                layer.push(row);
                dy = dy + 1;
            }
            block_y = block_y + TILE;
        }
        layer
    }

    /// The phase of every timestamp against a reference time, evaluated
    /// in batches of four.
    pub fn calculate_phases_batch<A: Fn(Operation) -> Scalar>(
        &self,
        timestamps: &Vec<Scalar>,
        reference: Scalar,
        arithmetic: &A,
    ) -> (phases: Vec<Scalar>)
        requires
            total(*arithmetic),
        ensures
            phases@.len() == timestamps@.len(),
            forall|i: int|
                0 <= i < timestamps@.len() ==> evaluates(
                    *arithmetic,
                    phase_formula(timestamps@[i], reference),
                    #[trigger] phases@[i],
                ),
    {
        let count: usize = timestamps.len();
        let mut phases: Vec<Scalar> = Vec::with_capacity(count);
        let mut start: usize = 0;
        while count - start >= MODULATION_BATCH
            invariant
                start <= count,
                count == timestamps@.len(),
                total(*arithmetic),
                phases@.len() == start,
                forall|i: int|
                    0 <= i < start ==> evaluates(
                        *arithmetic,
                        phase_formula(timestamps@[i], reference),
                        #[trigger] phases@[i],
                    ),
            decreases count - start,
        {
            let p0: Scalar = phase_of(timestamps[start], reference, arithmetic);
            let p1: Scalar = phase_of(timestamps[start + 1], reference, arithmetic);
            let p2: Scalar = phase_of(timestamps[start + 2], reference, arithmetic);
            let p3: Scalar = phase_of(timestamps[start + 3], reference, arithmetic);
            phases.push(p0);
            phases.push(p1);
            phases.push(p2);
            phases.push(p3);
            start = start + MODULATION_BATCH;
        }
        while start < count
            invariant
                start <= count,
                count == timestamps@.len(),
                total(*arithmetic),
                phases@.len() == start,
                forall|i: int|
                    0 <= i < start ==> evaluates(
                        *arithmetic,
                        phase_formula(timestamps@[i], reference),
                        #[trigger] phases@[i],
                    ),
            decreases count - start,
        {
            phases.push(phase_of(timestamps[start], reference, arithmetic));
            start = start + 1;
        }
        phases
    }

    /// The value of every wave at time `t`, with the sine of its angle
    /// approximated by [`fast_sin`].
    pub fn calculate_waves_fast<A: Fn(Operation) -> Scalar>(
        &self,
        waves: &Vec<MemoryWave>,
        t: Scalar,
        now: TimeSpan,
        arithmetic: &A,
    ) -> (values: Vec<Scalar>)
        requires
            total(*arithmetic),
        ensures
            values@.len() == waves@.len(),
            forall|i: int|
                0 <= i < waves@.len() ==> approximates_value(
                    *arithmetic,
                    waves@[i],
                    t,
                    now,
                    #[trigger] values@[i],
                ),
    {
        let mut values: Vec<Scalar> = Vec::with_capacity(waves.len());
        let mut i: usize = 0;
        while i < waves.len()
            invariant
                i <= waves@.len(),
                total(*arithmetic),
                values@.len() == i,
                forall|j: int|
                    0 <= j < i ==> approximates_value(
                        *arithmetic,
                        waves@[j],
                        t,
                        now,
                        #[trigger] values@[j],
                    ),
            decreases waves@.len() - i,
        {
            let wave: &MemoryWave = &waves[i];
            let decay: Term = wave.decay_term(now, arithmetic);
            let modulation: Term = wave.modulation_term(arithmetic);
            let angle: Term = Term::constant(TWO_PI).times(
                &Term::of(wave.frequency),
                arithmetic,
            ).times(&Term::of(t), arithmetic).plus(&Term::of(wave.phase), arithmetic);
            let sine: Scalar = fast_sin(angle.value, arithmetic);
            let result: Term = Term::of(wave.amplitude).times(&decay, arithmetic).times(
                &modulation,
                arithmetic,
            ).times(&Term::of(sine), arithmetic);
            proof {
                assert(operands(angle.value, sine));
            }
            values.push(result.value);
            i = i + 1;
        }
        values
    }

    /// The tiles of the band of rows that starts at row `block_y`, from
    /// the first column on.
    fn band_tiles<A: Fn(Operation) -> Scalar>(
        &self,
        grid: &WaveGrid,
        block_y: usize,
        z: u16,
        t: Scalar,
        now: TimeSpan,
        arithmetic: &A,
    ) -> (tiles: Vec<Vec<Vec<Scalar>>>)
        requires
            block_y % TILE == 0,
            block_y < grid@.height,
            total(*arithmetic),
        ensures
            band_of(*arithmetic, grid@, block_y as int, z as int, t, now, tiles@),
    {
        let height: usize = grid.height();
        let width: usize = grid.width();
        let mut tiles: Vec<Vec<Vec<Scalar>>> = Vec::new();
        let mut block_x: usize = 0;
        while block_x < width
            invariant
                height == grid@.height,
                width == grid@.width,
                0 < height <= 256,
                0 < width <= 256,
                block_y % TILE == 0,
                block_y < height,
                block_x % TILE == 0,
                block_x < width + TILE,
                tiles@.len() * TILE == block_x,
                total(*arithmetic),
                forall|k: int|
                    0 <= k < tiles@.len() ==> tile_of(
                        *arithmetic,
                        grid@,
                        k * TILE,
                        block_y as int,
                        z as int,
                        t,
                        now,
                        #[trigger] tiles@[k],
                    ),
            decreases width + TILE - block_x,
        {
            let tile: Vec<Vec<Scalar>> = self.processor.calculate_interference_block_simd(
                grid,
                block_x as u8,
                block_y as u8,
                z,
                t,
                now,
                arithmetic,
            );
            tiles.push(tile);
            block_x = block_x + TILE;
        }
        tiles
    }
}

/// The phase of a timestamp against a reference time.
fn phase_of<A: Fn(Operation) -> Scalar>(timestamp: Scalar, reference: Scalar, arithmetic: &A) -> (phase:
    Scalar)
    requires
        total(*arithmetic),
    ensures
        evaluates(*arithmetic, phase_formula(timestamp, reference), phase),
{
    Term::of(timestamp).minus(&Term::of(reference), arithmetic).times(
        &Term::constant(TWO),
        arithmetic,
    ).times(&Term::constant(PI), arithmetic).modulo(&Term::constant(TWO_PI), arithmetic).value
}

/// Bit pattern of `10.0`, the step between the frequencies of the waves of
/// a benchmark.
pub const FREQUENCY_STEP: u32 = 0x4120_0000;

/// Bit pattern of `1000.0`, the frequency at which the frequencies of the
/// waves of a benchmark start over.
pub const FREQUENCY_SPAN: u32 = 0x447a_0000;

/// Bit pattern of `440.0`, the frequency of the waves of the modulation
/// benchmark.
pub const CONCERT_PITCH: u32 = 0x43dc_0000;

/// Bit pattern of `0.8`, the amplitude of the waves of a benchmark.
pub const BENCHMARK_AMPLITUDE: u32 = 0x3f4c_cccd;

/// The layer on which grid processing is measured. On a grid that is less
/// deep the neighbourhood of every point of this layer is the grid's last
/// layer.
pub const BENCHMARK_LAYER: u16 = 1000;

/// What a benchmark found.
#[derive(Debug)]
pub struct BenchmarkResult {
    /// What was measured.
    pub operation: String,
    /// How many items were evaluated.
    pub num_items: usize,
    /// The time the path for single items took.
    pub standard_duration: TimeSpan,
    /// The time the batched path took.
    pub simd_duration: TimeSpan,
    /// The largest deviation between the results of the two paths.
    pub max_error: Scalar,
}

/// The frequency of the `i`-th wave of the wave benchmark, before it is
/// limited to the range of frequencies: `(10 i) % 1000`.
pub open spec fn sweep_formula(i: int) -> Formula {
    remainder(product(integer(i as u64), constant(FREQUENCY_STEP)), constant(FREQUENCY_SPAN))
}

/// The arousal of the `i`-th of `count` waves of a benchmark: `i / count`.
pub open spec fn ramp_formula(i: int, count: int) -> Formula {
    quotient(integer(i as u64), integer(count as u64))
}

/// The valence of the `i`-th of `count` waves of a benchmark:
/// `(i / count) * 2 - 1`.
pub open spec fn swing_formula(i: int, count: int) -> Formula {
    difference(product(ramp_formula(i, count), constant(TWO)), constant(ONE))
}

/// Whether `wave` is the `i`-th of `count` waves of a benchmark made at
/// `created`: of amplitude 0.8, with valence rising from -1 and arousal
/// from 0 along the waves, and of the given frequency, or, where none is
/// given, of a frequency that sweeps the range in steps of ten.
pub open spec fn workload_wave<A: Fn(Operation) -> Scalar>(
    arithmetic: A,
    pitch: Option<Scalar>,
    i: int,
    count: int,
    created: TimeSpan,
    wave: MemoryWave,
) -> bool {
    &&& match pitch {
        Some(frequency) => wave.frequency == frequency.spec_clamp(
            Scalar::from_bits(ZERO),
            Scalar::from_bits(FREQUENCY_SPAN),
        ),
        None => exists|swept: Scalar|
            #![trigger operand(swept)]
            operand(swept) && evaluates(arithmetic, sweep_formula(i), swept) && wave.frequency
                == swept.spec_clamp(Scalar::from_bits(ZERO), Scalar::from_bits(FREQUENCY_SPAN)),
    }
    &&& wave.amplitude.bits == BENCHMARK_AMPLITUDE
    &&& wave.phase.bits == ZERO
    &&& evaluates(arithmetic, swing_formula(i, count), wave.valence)
    &&& evaluates(arithmetic, ramp_formula(i, count), wave.arousal)
    &&& wave.created_at == created
    &&& wave.decay_tau == Some(TimeSpan { nanos: 5_000_000_000 })
}

/// Whether `waves` are the `count` waves of a benchmark made at `created`.
pub open spec fn workload_of<A: Fn(Operation) -> Scalar>(
    arithmetic: A,
    pitch: Option<Scalar>,
    count: int,
    created: TimeSpan,
    waves: Seq<MemoryWave>,
) -> bool {
    &&& waves.len() == count
    &&& forall|i: int|
        0 <= i < count ==> workload_wave(arithmetic, pitch, i, count, created, #[trigger] waves[i])
}

/// Whether `deviation` is the size of the difference between two results.
pub open spec fn deviates<A: Fn(Operation) -> Scalar>(
    arithmetic: A,
    standard: Scalar,
    batched: Scalar,
    deviation: Scalar,
) -> bool {
    exists|gap: Scalar|
        #![trigger operand(gap)]
        operand(gap) && evaluates(arithmetic, difference(value(standard), value(batched)), gap)
            && deviation == gap.spec_abs()
}

/// Whether `deviations` holds the sizes of the differences between the
/// results of two paths, item by item, as far as both have results.
pub open spec fn deviations_of<A: Fn(Operation) -> Scalar>(
    arithmetic: A,
    standard: Seq<Scalar>,
    batched: Seq<Scalar>,
    deviations: Seq<Scalar>,
) -> bool {
    &&& deviations.len() == if standard.len() <= batched.len() {
        standard.len()
    } else {
        batched.len()
    }
    &&& forall|i: int|
        0 <= i < deviations.len() ==> deviates(
            arithmetic,
            standard[i],
            batched[i],
            #[trigger] deviations[i],
        )
}

/// Whether `largest` is the largest of the deviations, found from zero on
/// and passing over NaNs: it is zero or one of the deviations, and no
/// deviation is above it.
pub open spec fn largest_of(deviations: Seq<Scalar>, largest: Scalar) -> bool {
    &&& !largest.spec_is_nan()
    &&& forall|i: int| 0 <= i < deviations.len() ==> !(#[trigger] deviations[i]).spec_gt(largest)
    &&& (largest.bits == ZERO || exists|i: int|
        0 <= i < deviations.len() && #[trigger] deviations[i] == largest)
}

/// Whether `duration` is the time between two readings of the clock.
pub open spec fn measured<C: Fn() -> TimeSpan>(clock: C, duration: TimeSpan) -> bool {
    exists|start: TimeSpan, end: TimeSpan|
        #![trigger call_ensures(clock, (), start), call_ensures(clock, (), end)]
        call_ensures(clock, (), start) && call_ensures(clock, (), end) && duration.nanos == if end.nanos
            >= start.nanos {
            end.nanos - start.nanos
        } else {
            0
        }
}

/// Whether the clock can always be read.
pub open spec fn ticks<C: Fn() -> TimeSpan>(clock: C) -> bool {
    call_requires(clock, ())
}

/// Marks a sequence of deviations as the readings of one comparison.
pub open spec fn readings(deviations: Seq<Scalar>) -> bool {
    true
}

/// Whether `largest` is the largest deviation between the results of two
/// paths.
pub open spec fn error_between<A: Fn(Operation) -> Scalar>(
    arithmetic: A,
    standard: Seq<Scalar>,
    batched: Seq<Scalar>,
    largest: Scalar,
) -> bool {
    exists|deviations: Seq<Scalar>|
        #![trigger readings(deviations)]
        readings(deviations) && deviations_of(arithmetic, standard, batched, deviations)
            && largest_of(deviations, largest)
}

/// Marks the waves of a benchmark and the time they were made at.
pub open spec fn trial(created: TimeSpan, waves: Seq<MemoryWave>) -> bool {
    true
}

/// Marks the results of the two paths of a benchmark and the clock
/// reading both were evaluated at.
pub open spec fn both_paths(now: TimeSpan, standard: Seq<Scalar>, batched: Seq<Scalar>) -> bool {
    true
}

/// Marks the layers of the two paths of a benchmark and the clock reading
/// both were evaluated at.
pub open spec fn both_layers(
    now: TimeSpan,
    standard: Seq<Vec<Scalar>>,
    batched: Seq<Vec<Scalar>>,
) -> bool {
    true
}

/// Whether `largest` is the largest deviation between the values of the
/// waves of a benchmark at time one, evaluated one by one and in batches.
/// The waves are made at a reading of the clock, and both paths take the
/// decay of the waves at one and the same later reading.
pub open spec fn compares_values<A: Fn(Operation) -> Scalar, C: Fn() -> TimeSpan>(
    arithmetic: A,
    clock: C,
    count: int,
    largest: Scalar,
) -> bool {
    exists|created: TimeSpan, waves: Seq<MemoryWave>|
        #![trigger trial(created, waves)]
        trial(created, waves) && call_ensures(clock, (), created) && workload_of(
            arithmetic,
            None,
            count,
            created,
            waves,
        ) && exists|now: TimeSpan, standard: Seq<Scalar>, batched: Seq<Scalar>|
            #![trigger both_paths(now, standard, batched)]
            both_paths(now, standard, batched) && call_ensures(clock, (), now) && values_of(
                arithmetic,
                waves,
                Scalar::from_bits(ONE),
                now,
                standard,
            ) && values_of(arithmetic, waves, Scalar::from_bits(ONE), now, batched)
                && error_between(arithmetic, standard, batched, largest)
}

/// Whether `largest` is the largest deviation between the emotional
/// modulations of the waves of a benchmark, evaluated one by one and in
/// batches. The waves are made at a reading of the clock.
pub open spec fn compares_modulations<A: Fn(Operation) -> Scalar, C: Fn() -> TimeSpan>(
    arithmetic: A,
    clock: C,
    count: int,
    largest: Scalar,
) -> bool {
    exists|created: TimeSpan, waves: Seq<MemoryWave>|
        #![trigger trial(created, waves)]
        trial(created, waves) && call_ensures(clock, (), created) && workload_of(
            arithmetic,
            Some(Scalar::from_bits(CONCERT_PITCH)),
            count,
            created,
            waves,
        ) && exists|standard: Seq<Scalar>, batched: Seq<Scalar>|
            #![trigger both_paths(created, standard, batched)]
            both_paths(created, standard, batched) && modulations_of(arithmetic, waves, standard)
                && modulations_of(arithmetic, waves, batched) && error_between(
                arithmetic,
                standard,
                batched,
                largest,
            )
}

/// Whether `largest` is the largest deviation, cell by cell, between the
/// interference on layer 1000 of the grid at time one worked out cell by
/// cell and worked out in tiles. Both paths take the decay of the waves at
/// one and the same reading of the clock.
pub open spec fn compares_layers<A: Fn(Operation) -> Scalar, C: Fn() -> TimeSpan>(
    arithmetic: A,
    clock: C,
    grid: GridView,
    largest: Scalar,
) -> bool {
    exists|now: TimeSpan, standard: Seq<Vec<Scalar>>, batched: Seq<Vec<Scalar>>|
        #![trigger both_layers(now, standard, batched)]
        both_layers(now, standard, batched) && call_ensures(clock, (), now) && layer_of(
            arithmetic,
            grid,
            BENCHMARK_LAYER as int,
            Scalar::from_bits(ONE),
            now,
            standard,
        ) && layer_of(
            arithmetic,
            grid,
            BENCHMARK_LAYER as int,
            Scalar::from_bits(ONE),
            now,
            batched,
        ) && error_between(arithmetic, flattened(standard), flattened(batched), largest)
}

/// Whether the arithmetic finds no difference between a number and itself:
/// what it returns for the difference is zero, or is no number at all, as
/// single-precision arithmetic returns for the difference of an infinity
/// and itself.
pub open spec fn cancels<A: Fn(Operation) -> Scalar>(arithmetic: A) -> bool {
    forall|x: Scalar, gap: Scalar|
        #[trigger] call_ensures(arithmetic, (Operation::Binary(Binary::Difference, x, x),), gap)
            ==> gap.is_zero() || gap.spec_is_nan()
}

/// Two paths that give the same results deviate by nothing: under an
/// arithmetic that finds no difference between a number and itself, the
/// largest deviation between a sequence of results and itself is zero.
pub proof fn lemma_same_results_have_no_error<A: Fn(Operation) -> Scalar>(
    arithmetic: A,
    results: Seq<Scalar>,
    largest: Scalar,
)
    requires
        cancels(arithmetic),
        error_between(arithmetic, results, results, largest),
    ensures
        largest.bits == ZERO,
{
    let deviations = choose|deviations: Seq<Scalar>|
        readings(deviations) && deviations_of(arithmetic, results, results, deviations)
            && largest_of(deviations, largest);
    if largest.bits != ZERO {
        let i = choose|i: int| 0 <= i < deviations.len() && #[trigger] deviations[i] == largest;
        assert(deviates(arithmetic, results[i], results[i], deviations[i]));
        let gap = choose|gap: Scalar|
            operand(gap) && evaluates(
                arithmetic,
                difference(value(results[i]), value(results[i])),
                gap,
            ) && deviations[i] == gap.spec_abs();
        let (left, right) = choose|x: Scalar, y: Scalar|
            operands(x, y) && evaluates(arithmetic, value(results[i]), x) && evaluates(
                arithmetic,
                value(results[i]),
                y,
            ) && call_ensures(arithmetic, (Operation::Binary(Binary::Difference, x, y),), gap);
        assert(left == right);
        assert(gap.is_zero() || gap.spec_is_nan());
    }
}

/// The batched path of the wave benchmark is held to the single path:
/// under an arithmetic that returns one result only for each operation
/// and finds no difference between a number and itself, the largest
/// deviation the benchmark reports is zero.
pub proof fn lemma_wave_benchmark_finds_no_error<A: Fn(Operation) -> Scalar, C: Fn() -> TimeSpan>(
    arithmetic: A,
    clock: C,
    count: int,
    largest: Scalar,
)
    requires
        deterministic(arithmetic),
        cancels(arithmetic),
        compares_values(arithmetic, clock, count, largest),
    ensures
        largest.bits == ZERO,
{
    let (created, waves) = choose|created: TimeSpan, waves: Seq<MemoryWave>|
        trial(created, waves) && call_ensures(clock, (), created) && workload_of(
            arithmetic,
            None,
            count,
            created,
            waves,
        ) && exists|now: TimeSpan, standard: Seq<Scalar>, batched: Seq<Scalar>|
            #![trigger both_paths(now, standard, batched)]
            both_paths(now, standard, batched) && call_ensures(clock, (), now) && values_of(
                arithmetic,
                waves,
                Scalar::from_bits(ONE),
                now,
                standard,
            ) && values_of(arithmetic, waves, Scalar::from_bits(ONE), now, batched)
                && error_between(arithmetic, standard, batched, largest);
    let (now, standard, batched) = choose|
        now: TimeSpan,
        standard: Seq<Scalar>,
        batched: Seq<Scalar>,
    |
        both_paths(now, standard, batched) && call_ensures(clock, (), now) && values_of(
            arithmetic,
            waves,
            Scalar::from_bits(ONE),
            now,
            standard,
        ) && values_of(arithmetic, waves, Scalar::from_bits(ONE), now, batched) && error_between(
            arithmetic,
            standard,
            batched,
            largest,
        );
    lemma_batch_equals_single(arithmetic, waves, Scalar::from_bits(ONE), now, batched, standard);
    lemma_same_results_have_no_error(arithmetic, standard, largest);
}

/// The batched path of the modulation benchmark is held to the single
/// path in the same way.
pub proof fn lemma_modulation_benchmark_finds_no_error<
    A: Fn(Operation) -> Scalar,
    C: Fn() -> TimeSpan,
>(arithmetic: A, clock: C, count: int, largest: Scalar)
    requires
        deterministic(arithmetic),
        cancels(arithmetic),
        compares_modulations(arithmetic, clock, count, largest),
    ensures
        largest.bits == ZERO,
{
    let (created, waves) = choose|created: TimeSpan, waves: Seq<MemoryWave>|
        trial(created, waves) && call_ensures(clock, (), created) && workload_of(
            arithmetic,
            Some(Scalar::from_bits(CONCERT_PITCH)),
            count,
            created,
            waves,
        ) && exists|standard: Seq<Scalar>, batched: Seq<Scalar>|
            #![trigger both_paths(created, standard, batched)]
            both_paths(created, standard, batched) && modulations_of(arithmetic, waves, standard)
                && modulations_of(arithmetic, waves, batched) && error_between(
                arithmetic,
                standard,
                batched,
                largest,
            );
    let (standard, batched) = choose|standard: Seq<Scalar>, batched: Seq<Scalar>|
        both_paths(created, standard, batched) && modulations_of(arithmetic, waves, standard)
            && modulations_of(arithmetic, waves, batched) && error_between(
            arithmetic,
            standard,
            batched,
            largest,
        );
    lemma_batch_modulation_equals_single(arithmetic, waves, batched, standard);
    lemma_same_results_have_no_error(arithmetic, standard, largest);
}

/// Tiling changes nothing: under an arithmetic that returns one result
/// only for each operation, two layers of the interference field of one
/// grid at one time are the same, cell by cell.
pub proof fn lemma_tiled_layer_equals_single<A: Fn(Operation) -> Scalar>(
    arithmetic: A,
    grid: GridView,
    z: int,
    t: Scalar,
    now: TimeSpan,
    tiled: Seq<Vec<Scalar>>,
    single: Seq<Vec<Scalar>>,
)
    requires
        deterministic(arithmetic),
        layer_of(arithmetic, grid, z, t, now, tiled),
        layer_of(arithmetic, grid, z, t, now, single),
    ensures
        tiled.len() == single.len(),
        forall|y: int| 0 <= y < tiled.len() ==> (#[trigger] tiled[y])@ == single[y]@,
        flattened(tiled) == flattened(single),
{
    assert forall|y: int| 0 <= y < tiled.len() implies (#[trigger] tiled[y])@ == single[y]@ by {
        assert forall|x: int| 0 <= x < grid.width implies tiled[y]@[x] == single[y]@[x] by {
            lemma_value_is_unique(
                arithmetic,
                point_formula(grid, x, y, z, t, now),
                tiled[y]@[x],
                single[y]@[x],
            );
        }
        assert(tiled[y]@ =~= single[y]@);
    }
    assert(tiled.map_values(|row: Vec<Scalar>| row@) =~= single.map_values(
        |row: Vec<Scalar>| row@,
    ));
}

/// The tiled path of the grid benchmark is held to the single path: under
/// an arithmetic that returns one result only for each operation and
/// finds no difference between a number and itself, the largest deviation
/// the benchmark reports is zero.
pub proof fn lemma_grid_benchmark_finds_no_error<A: Fn(Operation) -> Scalar, C: Fn() -> TimeSpan>(
    arithmetic: A,
    clock: C,
    grid: GridView,
    largest: Scalar,
)
    requires
        deterministic(arithmetic),
        cancels(arithmetic),
        compares_layers(arithmetic, clock, grid, largest),
    ensures
        largest.bits == ZERO,
{
    let (now, standard, batched) = choose|
        now: TimeSpan,
        standard: Seq<Vec<Scalar>>,
        batched: Seq<Vec<Scalar>>,
    |
        both_layers(now, standard, batched) && call_ensures(clock, (), now) && layer_of(
            arithmetic,
            grid,
            BENCHMARK_LAYER as int,
            Scalar::from_bits(ONE),
            now,
            standard,
        ) && layer_of(
            arithmetic,
            grid,
            BENCHMARK_LAYER as int,
            Scalar::from_bits(ONE),
            now,
            batched,
        ) && error_between(arithmetic, flattened(standard), flattened(batched), largest);
    lemma_tiled_layer_equals_single(
        arithmetic,
        grid,
        BENCHMARK_LAYER as int,
        Scalar::from_bits(ONE),
        now,
        batched,
        standard,
    );
    lemma_same_results_have_no_error(arithmetic, flattened(standard), largest);
}

/// Compares the batched paths with the paths for single items.
pub struct PerformanceBenchmark {
    simd_ops: SimdGridOps,
}

impl PerformanceBenchmark {
    /// A benchmark of grid operations on a processor of eight items per
    /// batch.
    pub fn new() -> (benchmark: PerformanceBenchmark)
        ensures
            benchmark.simd_ops().processor().vector_width() == VALUE_BATCH,
    {
        PerformanceBenchmark { simd_ops: SimdGridOps::new() }
    }

    /// The grid operations that are measured.
    pub closed spec fn simd_ops(&self) -> SimdGridOps {
        self.simd_ops
    }

    /// The waves of a benchmark, made at `created`: `num_waves` waves of
    /// amplitude 0.8 whose valence rises from -1 and whose arousal rises
    /// from 0. They all have the frequency `pitch`, or, where none is
    /// given, frequencies that sweep the range in steps of ten.
    pub fn workload<A: Fn(Operation) -> Scalar>(
        &self,
        num_waves: usize,
        pitch: Option<Scalar>,
        created: TimeSpan,
        arithmetic: &A,
    ) -> (waves: Vec<MemoryWave>)
        requires
            total(*arithmetic),
        ensures
            workload_of(*arithmetic, pitch, num_waves as int, created, waves@),
    {
        let mut waves: Vec<MemoryWave> = Vec::with_capacity(num_waves);
        let mut i: usize = 0;
        while i < num_waves
            invariant
                i <= num_waves,
                total(*arithmetic),
                waves@.len() == i,
                forall|j: int|
                    0 <= j < i ==> workload_wave(
                        *arithmetic,
                        pitch,
                        j,
                        num_waves as int,
                        created,
                        #[trigger] waves@[j],
                    ),
            decreases num_waves - i,
        {
            let frequency: Scalar = match pitch {
                Some(frequency) => frequency,
                None => {
                    let swept: Term = Term::integer(i as u64, arithmetic).times(
                        &Term::constant(FREQUENCY_STEP),
                        arithmetic,
                    ).modulo(&Term::constant(FREQUENCY_SPAN), arithmetic);
                    proof {
                        assert(operand(swept.value));
                    }
                    swept.value
                },
            };
            let mut wave: MemoryWave = MemoryWave::new(
                frequency,
                Scalar::from_bits(BENCHMARK_AMPLITUDE),
                created,
            );
            let place: Term = Term::integer(i as u64, arithmetic);
            let count: Term = Term::integer(num_waves as u64, arithmetic);
            wave.valence =
            place.over(&count, arithmetic).times(&Term::constant(TWO), arithmetic).minus(
                &Term::constant(ONE),
                arithmetic,
            ).value;
            wave.arousal = place.over(&count, arithmetic).value;
            waves.push(wave);
            i = i + 1;
        }
        waves
    }

    /// The sizes of the differences between the results of two paths, item
    /// by item, as far as both have results.
    pub fn deviations<A: Fn(Operation) -> Scalar>(
        &self,
        standard: &Vec<Scalar>,
        batched: &Vec<Scalar>,
        arithmetic: &A,
    ) -> (deviations: Vec<Scalar>)
        requires
            total(*arithmetic),
        ensures
            deviations_of(*arithmetic, standard@, batched@, deviations@),
    {
        let count: usize = if standard.len() <= batched.len() {
            standard.len()
        } else {
            batched.len()
        };
        let mut deviations: Vec<Scalar> = Vec::with_capacity(count);
        let mut i: usize = 0;
        while i < count
            invariant
                i <= count,
                count <= standard@.len(),
                count <= batched@.len(),
                total(*arithmetic),
                deviations@.len() == i,
                forall|j: int|
                    0 <= j < i ==> deviates(
                        *arithmetic,
                        standard@[j],
                        batched@[j],
                        #[trigger] deviations@[j],
                    ),
            decreases count - i,
        {
            let gap: Term = Term::of(standard[i]).minus(&Term::of(batched[i]), arithmetic);
            proof {
                assert(operand(gap.value));
            }
            deviations.push(gap.value.abs());
            i = i + 1;
        }
        deviations
    }

    /// The largest of the deviations between two paths, which has to stay
    /// within tolerance for the faster path to count as correct. The
    /// search starts from zero and passes over NaNs.
    pub fn max_error(&self, deviations: &Vec<Scalar>) -> (largest: Scalar)
        ensures
            largest_of(deviations@, largest),
    {
        let mut largest: Scalar = Scalar::from_bits(ZERO);
        let mut i: usize = 0;
        while i < deviations.len()
            invariant
                i <= deviations@.len(),
                largest_of(deviations@.take(i as int), largest),
            decreases deviations@.len() - i,
        {
            let ghost before = deviations@.take(i as int);
            let ghost upto = deviations@.take(i as int + 1);
            let ghost previous = largest;
            if deviations[i].gt(largest) {
                largest = deviations[i];
            }
            proof {
                assert(forall|j: int| 0 <= j < i ==> upto[j] == before[j]);
                assert(upto[i as int] == deviations@[i as int]);
                if previous.bits != ZERO && largest == previous {
                    let j = choose|j: int| 0 <= j < before.len() && #[trigger] before[j] == previous;
                    assert(upto[j] == largest);
                }
            }
            i = i + 1;
        }
        assert(deviations@.take(i as int) =~= deviations@);
        largest
    }

    /// The largest deviation between the results of two paths.
    pub fn compare<A: Fn(Operation) -> Scalar>(
        &self,
        standard: &Vec<Scalar>,
        batched: &Vec<Scalar>,
        arithmetic: &A,
    ) -> (largest: Scalar)
        requires
            total(*arithmetic),
        ensures
            error_between(*arithmetic, standard@, batched@, largest),
    {
        let deviations: Vec<Scalar> = self.deviations(standard, batched, arithmetic);
        let largest: Scalar = self.max_error(&deviations);
        proof {
            assert(readings(deviations@));
        }
        largest
    }

    /// Measures the evaluation of `num_waves` waves at time one: one by
    /// one and in batches, on the same waves and with their decay taken at
    /// one reading of the clock for both. Each path is reported with the
    /// time it took between two further readings, and with them the
    /// largest deviation between the results of the two.
    pub fn benchmark_wave_calculation<A: Fn(Operation) -> Scalar, C: Fn() -> TimeSpan>(
        &self,
        num_waves: usize,
        arithmetic: &A,
        clock: &C,
    ) -> (result: BenchmarkResult)
        requires
            total(*arithmetic),
            ticks(*clock),
        ensures
            result.operation@ == "Wave Calculation"@,
            result.num_items == num_waves,
            measured(*clock, result.standard_duration),
            measured(*clock, result.simd_duration),
            compares_values(*arithmetic, *clock, num_waves as int, result.max_error),
    {
        let created: TimeSpan = clock();
        let waves: Vec<MemoryWave> = self.workload(num_waves, None, created, arithmetic);
        let t: Scalar = Scalar::from_bits(ONE);
        let now: TimeSpan = clock();

        let start_standard: TimeSpan = clock();
        let mut standard: Vec<Scalar> = Vec::with_capacity(num_waves);
        let mut i: usize = 0;
        while i < waves.len()
            invariant
                i <= waves@.len(),
                total(*arithmetic),
                values_of(*arithmetic, waves@.take(i as int), t, now, standard@),
            decreases waves@.len() - i,
        {
            standard.push(waves[i].calculate(t, now, arithmetic));
            i = i + 1;
        }
        assert(waves@.take(i as int) =~= waves@);
        let end_standard: TimeSpan = clock();

        let processor: SimdWaveProcessor = SimdWaveProcessor::new();
        let start_simd: TimeSpan = clock();
        let batched: Vec<Scalar> = processor.calculate_waves_simd(&waves, t, now, arithmetic);
        let end_simd: TimeSpan = clock();

        let max_error: Scalar = self.compare(&standard, &batched, arithmetic);
        proof {
            assert(trial(created, waves@));
            assert(both_paths(now, standard@, batched@));
        }
        BenchmarkResult {
            operation: "Wave Calculation".to_owned(),
            num_items: num_waves,
            standard_duration: end_standard.saturating_since(start_standard),
            simd_duration: end_simd.saturating_since(start_simd),
            max_error,
        }
    }

    /// Measures the evaluation of the emotional modulation of `num_waves`
    /// waves: one by one and in batches, on the same waves, each path with
    /// the time it took between two readings of the clock, and the largest
    /// deviation between the results of the two.
    pub fn benchmark_emotional_modulation<A: Fn(Operation) -> Scalar, C: Fn() -> TimeSpan>(
        &self,
        num_waves: usize,
        arithmetic: &A,
        clock: &C,
    ) -> (result: BenchmarkResult)
        requires
            total(*arithmetic),
            ticks(*clock),
        ensures
            result.operation@ == "Emotional Modulation"@,
            result.num_items == num_waves,
            measured(*clock, result.standard_duration),
            measured(*clock, result.simd_duration),
            compares_modulations(*arithmetic, *clock, num_waves as int, result.max_error),
    {
        let created: TimeSpan = clock();
        let waves: Vec<MemoryWave> = self.workload(
            num_waves,
            Some(Scalar::from_bits(CONCERT_PITCH)),
            created,
            arithmetic,
        );

        let start_standard: TimeSpan = clock();
        let mut standard: Vec<Scalar> = Vec::with_capacity(num_waves);
        let mut i: usize = 0;
        while i < waves.len()
            invariant
                i <= waves@.len(),
                total(*arithmetic),
                modulations_of(*arithmetic, waves@.take(i as int), standard@),
            decreases waves@.len() - i,
        {
            standard.push(waves[i].calculate_emotional_modulation(arithmetic));
            i = i + 1;
        }
        assert(waves@.take(i as int) =~= waves@);
        let end_standard: TimeSpan = clock();

        let processor: SimdWaveProcessor = SimdWaveProcessor::new();
        let start_simd: TimeSpan = clock();
        let batched: Vec<Scalar> = processor.calculate_emotional_modulation_simd(&waves, arithmetic);
        let end_simd: TimeSpan = clock();

        let max_error: Scalar = self.compare(&standard, &batched, arithmetic);
        proof {
            assert(trial(created, waves@));
            assert(both_paths(created, standard@, batched@));
        }
        BenchmarkResult {
            operation: "Emotional Modulation".to_owned(),
            num_items: num_waves,
            standard_duration: end_standard.saturating_since(start_standard),
            simd_duration: end_simd.saturating_since(start_simd),
            max_error,
        }
    }

    /// Measures the processing of layer 1000 of a grid at time one: the
    /// interference at every cell, worked out cell by cell and worked out
    /// in tiles, with the decay of the waves taken at one reading of the
    /// clock for both. Each path is reported with the time it took between
    /// two further readings, and with them the largest deviation between
    /// the results of the two, cell by cell and row by row.
    pub fn benchmark_grid_processing<A: Fn(Operation) -> Scalar, C: Fn() -> TimeSpan>(
        &self,
        grid: &WaveGrid,
        arithmetic: &A,
        clock: &C,
    ) -> (result: BenchmarkResult)
        requires
            total(*arithmetic),
            ticks(*clock),
        ensures
            result.operation@ == "Grid Processing"@,
            result.num_items == grid@.width * grid@.height,
            measured(*clock, result.standard_duration),
            measured(*clock, result.simd_duration),
            compares_layers(*arithmetic, *clock, grid@, result.max_error),
    {
        let t: Scalar = Scalar::from_bits(ONE);
        let height: usize = grid.height();
        let width: usize = grid.width();

        let now: TimeSpan = clock();

        let start_standard: TimeSpan = clock();
        let mut standard: Vec<Vec<Scalar>> = Vec::with_capacity(height);
        let mut y: usize = 0;
        while y < height
            invariant
                y <= height,
                height == grid@.height,
                width == grid@.width,
                0 < height <= 256,
                0 < width <= 256,
                total(*arithmetic),
                standard@.len() == y,
                forall|row: int| 0 <= row < y ==> (#[trigger] standard@[row])@.len() == width,
                forall|row: int, column: int|
                    0 <= row < y && 0 <= column < width ==> evaluates(
                        *arithmetic,
                        point_formula(grid@, column, row, BENCHMARK_LAYER as int, t, now),
                        #[trigger] standard@[row]@[column],
                    ),
            decreases height - y,
        {
            let mut row: Vec<Scalar> = Vec::with_capacity(width);
            let mut x: usize = 0;
            while x < width
                invariant
                    x <= width,
                    y < height,
                    height == grid@.height,
                    width == grid@.width,
                    0 < height <= 256,
                    0 < width <= 256,
                    total(*arithmetic),
                    row@.len() == x,
                    forall|column: int|
                        0 <= column < x ==> evaluates(
                            *arithmetic,
                            point_formula(
                                grid@,
                                column,
                                y as int,
                                BENCHMARK_LAYER as int,
                                t,
                                now,
                            ),
                            #[trigger] row@[column],
                        ),
                decreases width - x,
            {
                row.push(
                    grid.calculate_interference(
                        x as u8,
                        y as u8,
                        BENCHMARK_LAYER,
                        t,
                        now,
                        arithmetic,
                    ),
                );
                x = x + 1;
            }
            standard.push(row);
            y = y + 1;
        }
        let end_standard: TimeSpan = clock();

        let start_simd: TimeSpan = clock();
        let batched: Vec<Vec<Scalar>> = self.simd_ops.process_grid_layer(
            grid,
            BENCHMARK_LAYER,
            t,
            now,
            arithmetic,
        );
        let end_simd: TimeSpan = clock();

        assert(width * height <= 65536) by (nonlinear_arith)
            requires
                0 < width <= 256,
                0 < height <= 256,
        ;
        let flat_standard: Vec<Scalar> = flatten(&standard);
        let flat_batched: Vec<Scalar> = flatten(&batched);
        let max_error: Scalar = self.compare(&flat_standard, &flat_batched, arithmetic);
        proof {
            assert(both_layers(now, standard@, batched@));
        }
        BenchmarkResult {
            operation: "Grid Processing".to_owned(),
            num_items: width * height,
            standard_duration: end_standard.saturating_since(start_standard),
            simd_duration: end_simd.saturating_since(start_simd),
            max_error,
        }
    }
}

/// The rows of a layer one after the other.
pub open spec fn flattened(rows: Seq<Vec<Scalar>>) -> Seq<Scalar> {
    rows.map_values(|row: Vec<Scalar>| row@).flatten()
}

/// The rows of a layer one after the other.
pub fn flatten(rows: &Vec<Vec<Scalar>>) -> (flat: Vec<Scalar>)
    ensures
        flat@ == flattened(rows@),
{
    let mut flat: Vec<Scalar> = Vec::new();
    let mut y: usize = 0;
    assert(flattened(rows@.take(0)) =~= Seq::<Scalar>::empty());
    while y < rows.len()
        invariant
            y <= rows@.len(),
            flat@ == flattened(rows@.take(y as int)),
        decreases rows@.len() - y,
    {
        let row: &Vec<Scalar> = &rows[y];
        let ghost before = flat@;
        let mut x: usize = 0;
        while x < row.len()
            invariant
                x <= row@.len(),
                flat@ == before + row@.take(x as int),
            decreases row@.len() - x,
        {
            flat.push(row[x]);
            assert(row@.take(x as int + 1) =~= row@.take(x as int).push(row@[x as int]));
            x = x + 1;
        }
        proof {
            assert(row@.take(x as int) =~= row@);
            let upto = rows@.take(y as int + 1).map_values(|row: Vec<Scalar>| row@);
            let sofar = rows@.take(y as int).map_values(|row: Vec<Scalar>| row@);
            assert(upto =~= sofar.push(row@));
            sofar.lemma_flatten_push(row@);
        }
        y = y + 1;
    }
    assert(rows@.take(y as int) =~= rows@);
    flat
}

} // verus!
