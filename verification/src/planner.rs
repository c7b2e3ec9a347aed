//! Partition planning: how an object of a known size is cut into parts.

use vstd::prelude::*;
use crate::error::{ErrorKind, TransferError};
use crate::types::SizeHint;

verus! {

/// One part of a plan: a contiguous byte range and its 1-based number.
#[derive(Clone, Copy, Debug, PartialEq, Eq, Structural)]
pub struct PartSpec {
    pub part_number: u32,
    pub offset: u64,
    pub length: u64,
}

/// The limits a plan has to respect.
#[derive(Clone, Copy, Debug, PartialEq, Eq)]
pub struct PlannerConfig {
    /// Smallest length of any part but the last; objects up to this size are
    /// moved in a single operation.
    pub min_part_size: u64,
    /// Largest length of any part.
    pub max_part_size: u64,
    /// Largest number of parts a session accepts.
    pub max_parts: u32,
    /// Advisory only: the layout is fixed by the three limits above.
    pub target_part_count_hint: Option<u32>,
}

/// The quotient of `a` by `b`, rounded up.
pub open spec fn ceil_div(a: int, b: int) -> int
    recommends
        a >= 0,
        b > 0,
{
    if a % b == 0 {
        a / b
    } else {
        a / b + 1
    }
}

impl PlannerConfig {
    /// The limits are usable: sizes are positive, ordered, and at least one
    /// part is allowed.
    pub open spec fn valid(&self) -> bool {
        &&& 1 <= self.min_part_size
        &&& self.min_part_size <= self.max_part_size
        &&& 1 <= self.max_parts
    }

    /// Whether an object of `total_size` bytes is moved in one operation.
    pub open spec fn is_simple(&self, total_size: int) -> bool {
        total_size <= self.min_part_size
    }

    /// Whether `max_parts` parts of `max_part_size` bytes cover the object.
    pub open spec fn supports(&self, total_size: int) -> bool {
        total_size <= self.max_part_size * self.max_parts
    }

    /// The length of every part but the last: the smallest size that is at
    /// least `min_part_size` and keeps the count within `max_parts`, capped
    /// at `max_part_size`.
    pub open spec fn part_size(&self, total_size: int) -> int {
        let wanted = ceil_div(total_size, self.max_parts as int);
        let floor = if wanted < self.min_part_size {
            self.min_part_size as int
        } else {
            wanted
        };
        if floor > self.max_part_size {
            self.max_part_size as int
        } else {
            floor
        }
    }

    /// The number of parts in the plan for `total_size` bytes.
    pub open spec fn part_count(&self, total_size: int) -> int {
        if self.is_simple(total_size) {
            1
        } else {
            ceil_div(total_size, self.part_size(total_size))
        }
    }

    /// The length of every part but the last in the plan for `total_size`
    /// bytes; for a single-operation plan, the whole object.
    pub open spec fn stride(&self, total_size: int) -> int {
        if self.is_simple(total_size) {
            total_size
        } else {
            self.part_size(total_size)
        }
    }

    /// The parts of the plan for `total_size` bytes.
    pub open spec fn layout(&self, total_size: int) -> Seq<PartSpec> {
        layout(total_size, self.stride(total_size), self.part_count(total_size))
    }

    /// Checks the limits.
    pub fn is_valid(&self) -> (r: bool)
        ensures
            r == self.valid(),
    {
        1 <= self.min_part_size && self.min_part_size <= self.max_part_size && 1 <= self.max_parts
    }
}

/// `count` consecutive parts of `stride` bytes each, the last one cut short or
/// stretched so that the parts end at `total_size`.
pub open spec fn layout(total_size: int, stride: int, count: int) -> Seq<PartSpec> {
    Seq::new(
        count as nat,
        |i: int|
            PartSpec {
                part_number: (i + 1) as u32,
                offset: (i * stride) as u64,
                length: if i + 1 < count {
                    stride as u64
                } else {
                    (total_size - stride * (count - 1)) as u64
                },
            },
    )
}

/// What a plan is, as plain values.
pub struct PartPlanView {
    pub parts: Seq<PartSpec>,
    pub simple: bool,
    pub total_size: int,
}

/// The part layout of one transfer.
#[derive(Debug)]
pub struct PartPlan {
    parts: Vec<PartSpec>,
    simple: bool,
    total_size: u64,
}

impl View for PartPlan {
    type V = PartPlanView;

    closed spec fn view(&self) -> PartPlanView {
        PartPlanView { parts: self.parts@, simple: self.simple, total_size: self.total_size as int }
    }
}

impl PartPlan {
    #[verifier::type_invariant]
    spec fn tiles(&self) -> bool {
        is_partition(self.parts@, self.total_size as int)
    }

    /// The parts, in ascending part-number order.
    pub fn parts(&self) -> (r: &Vec<PartSpec>)
        ensures
            r@ == self@.parts,
            is_partition(r@, self@.total_size),
    {
        proof {
            use_type_invariant(self);
        }
        &self.parts
    }

    /// The number of parts; at least one.
    pub fn part_count(&self) -> (r: usize)
        ensures
            r == self@.parts.len(),
            r >= 1,
    {
        proof {
            use_type_invariant(self);
        }
        self.parts.len()
    }

    /// Whether the object is moved in one operation, without a multipart
    /// session.
    pub fn is_simple(&self) -> (r: bool)
        ensures
            r == self@.simple,
    {
        self.simple
    }

    /// The size of the object the plan was made for.
    pub fn total_size(&self) -> (r: u64)
        ensures
            r == self@.total_size,
    {
        self.total_size
    }
}

/// The parts are numbered from 1 and tile `[0, total_size)` in order, with no
/// gap and no overlap.
pub open spec fn is_partition(parts: Seq<PartSpec>, total_size: int) -> bool {
    &&& parts.len() >= 1
    &&& forall|i: int| 0 <= i < parts.len() ==> (#[trigger] parts[i]).part_number == i + 1
    &&& parts[0].offset == 0
    &&& forall|i: int|
        0 <= i < parts.len() - 1 ==> (#[trigger] parts[i + 1]).offset == parts[i].offset
            + parts[i].length
    &&& parts.last().offset + parts.last().length == total_size
}

/// The part count and the part lengths respect the limits: every part but the
/// last has between `min_part_size` and `max_part_size` bytes, the last has at
/// most `max_part_size` and is empty only for an empty object.
pub open spec fn within_limits(parts: Seq<PartSpec>, config: PlannerConfig, total_size: int)
    -> bool {
    &&& parts.len() <= config.max_parts
    &&& forall|i: int|
        0 <= i < parts.len() - 1 ==> config.min_part_size <= (#[trigger] parts[i]).length
            <= config.max_part_size
    &&& parts.len() >= 1 ==> parts.last().length <= config.max_part_size
    &&& parts.len() >= 1 && total_size > 0 ==> parts.last().length > 0
}

/// The sum of the parts' lengths.
pub open spec fn total_length(parts: Seq<PartSpec>) -> int
    decreases parts.len(),
{
    if parts.len() == 0 {
        0
    } else {
        total_length(parts.drop_last()) + parts.last().length
    }
}

/// The outcome of planning, as a function of the object's size and the limits.
pub open spec fn plan_outcome(total_size: int, config: PlannerConfig) -> Result<
    PartPlanView,
    TransferError,
> {
    if !config.valid() {
        Err(TransferError { kind: ErrorKind::InvalidConfiguration, part_number: None })
    } else if !config.supports(total_size) {
        Err(TransferError { kind: ErrorKind::SizeUnsupported, part_number: None })
    } else {
        Ok(
            PartPlanView {
                parts: config.layout(total_size),
                simple: config.is_simple(total_size),
                total_size,
            },
        )
    }
}

/// Rounding up gives the least multiple of `b` that reaches `a`.
pub proof fn lemma_ceil_div_bounds(a: int, b: int)
    requires
        a >= 0,
        b > 0,
    ensures
        ceil_div(a, b) >= 0,
        ceil_div(a, b) * b >= a,
        a > 0 ==> (ceil_div(a, b) - 1) * b < a,
        a > 0 ==> ceil_div(a, b) >= 1,
        a == 0 ==> ceil_div(a, b) == 0,
{
    let q = a / b;
    let r = a % b;
    assert(a == b * q + r && 0 <= r < b) by (nonlinear_arith)
        requires
            a >= 0,
            b > 0,
            q == a / b,
            r == a % b,
    ;
    assert(q >= 0) by (nonlinear_arith)
        requires
            a == b * q + r,
            0 <= r < b,
            a >= 0,
            b > 0,
    ;
    assert(q * b == b * q) by (nonlinear_arith);
    assert((q + 1) * b == b * q + b) by (nonlinear_arith);
    assert((q - 1) * b == b * q - b) by (nonlinear_arith);
    if a == 0 {
        assert(q == 0) by (nonlinear_arith)
            requires
                0 == b * q + r,
                0 <= r < b,
                q >= 0,
                b > 0,
        ;
    } else if r == 0 {
        assert(q >= 1) by (nonlinear_arith)
            requires
                a == b * q,
                a > 0,
                q >= 0,
        ;
    }
}

/// Any count of `b`-sized pieces that reaches `a` is at least the rounded-up
/// quotient.
pub proof fn lemma_ceil_div_least(a: int, b: int, n: int)
    requires
        a >= 0,
        b > 0,
        n >= 0,
        n * b >= a,
    ensures
        ceil_div(a, b) <= n,
{
    lemma_ceil_div_bounds(a, b);
    let c = ceil_div(a, b);
    if a > 0 && c > n {
        assert((c - 1) * b >= n * b) by (nonlinear_arith)
            requires
                c - 1 >= n,
                b > 0,
        ;
    }
}

/// No two parts share a byte, and a part with a smaller number ends before
/// one with a larger number starts.
pub open spec fn non_overlapping(parts: Seq<PartSpec>) -> bool {
    forall|i: int, j: int|
        0 <= i < j < parts.len() ==> (#[trigger] parts[i]).offset + parts[i].length <= (
        #[trigger] parts[j]).offset
}

/// The arithmetic behind a plan: how the part size and the part count relate
/// to the object's size and to the limits.
pub proof fn lemma_stride_and_count(total_size: int, config: PlannerConfig)
    requires
        config.valid(),
        0 <= total_size,
        config.supports(total_size),
    ensures
        1 <= config.part_count(total_size) <= config.max_parts,
        0 <= config.stride(total_size) <= config.max_part_size,
        !config.is_simple(total_size) ==> config.min_part_size <= config.stride(total_size),
        (config.part_count(total_size) - 1) * config.stride(total_size) <= total_size,
        total_size > 0 ==> (config.part_count(total_size) - 1) * config.stride(total_size)
            < total_size,
        total_size <= config.part_count(total_size) * config.stride(total_size),
{
    let n = config.max_parts as int;
    let s = config.stride(total_size);
    let c = config.part_count(total_size);
    if config.is_simple(total_size) {
        assert((c - 1) * s == 0) by (nonlinear_arith)
            requires
                c == 1,
        ;
        assert(c * s == s) by (nonlinear_arith)
            requires
                c == 1,
        ;
    } else {
        let wanted = ceil_div(total_size, n);
        lemma_ceil_div_bounds(total_size, n);
        assert(config.max_part_size * config.max_parts == config.max_parts
            * config.max_part_size) by (nonlinear_arith);
        lemma_ceil_div_least(total_size, n, config.max_part_size as int);
        assert(s >= wanted);
        assert(n * s >= total_size) by (nonlinear_arith)
            requires
                s >= wanted,
                wanted * n >= total_size,
                n >= 1,
        ;
        lemma_ceil_div_bounds(total_size, s);
        lemma_ceil_div_least(total_size, s, n);
    }
}

/// Parts laid out stride by stride tile the object.
pub proof fn lemma_layout_is_partition(total_size: int, stride: int, count: int)
    requires
        0 <= total_size <= u64::MAX,
        0 <= stride,
        1 <= count <= u32::MAX,
        (count - 1) * stride <= total_size,
    ensures
        is_partition(layout(total_size, stride, count), total_size),
        layout(total_size, stride, count).len() == count,
        forall|i: int|
            0 <= i < count - 1 ==> (#[trigger] layout(total_size, stride, count)[i]).length
                == stride,
        layout(total_size, stride, count).last().length == total_size - stride * (count - 1),
{
    let parts = layout(total_size, stride, count);
    assert(stride * (count - 1) == (count - 1) * stride) by (nonlinear_arith);
    assert forall|i: int| 0 <= i < parts.len() - 1 implies (#[trigger] parts[i + 1]).offset
        == parts[i].offset + parts[i].length by {
        assert(0 <= i * stride && (i + 1) * stride == i * stride + stride && (i + 1) * stride
            <= (count - 1) * stride) by (nonlinear_arith)
            requires
                0 <= i,
                i + 1 <= count - 1,
                0 <= stride,
        ;
    }
    assert forall|i: int| 0 <= i < count - 1 implies (#[trigger] parts[i]).length == stride by {
        assert(stride <= (count - 1) * stride) by (nonlinear_arith)
            requires
                count >= 2,
                0 <= stride,
        ;
    }
    assert(0 * stride == 0) by (nonlinear_arith);
}

/// The lengths of parts that tile an object add up to its size.
pub proof fn lemma_partition_total_length(parts: Seq<PartSpec>, total_size: int)
    requires
        is_partition(parts, total_size),
    ensures
        total_length(parts) == total_size,
{
    lemma_prefix_length(parts, total_size, parts.len() as int);
    assert(parts.take(parts.len() as int) =~= parts);
}

proof fn lemma_prefix_length(parts: Seq<PartSpec>, total_size: int, k: int)
    requires
        is_partition(parts, total_size),
        1 <= k <= parts.len(),
    ensures
        total_length(parts.take(k)) == parts[k - 1].offset + parts[k - 1].length,
    decreases k,
{
    let prefix = parts.take(k);
    assert(prefix.last() == parts[k - 1]);
    if k == 1 {
        assert(prefix.drop_last() =~= Seq::<PartSpec>::empty());
        assert(total_length(prefix.drop_last()) == 0);
    } else {
        lemma_prefix_length(parts, total_size, k - 1);
        assert(prefix.drop_last() =~= parts.take(k - 1));
        assert(parts[(k - 2) + 1].offset == parts[k - 2].offset + parts[k - 2].length);
    }
}

/// Parts that tile an object do not overlap.
pub proof fn lemma_partition_non_overlapping(parts: Seq<PartSpec>, total_size: int)
    requires
        is_partition(parts, total_size),
    ensures
        non_overlapping(parts),
{
    assert forall|i: int, j: int| 0 <= i < j < parts.len() implies (#[trigger] parts[i]).offset
        + parts[i].length <= (#[trigger] parts[j]).offset by {
        lemma_offsets_ascend(parts, total_size, i, j);
    }
}

proof fn lemma_offsets_ascend(parts: Seq<PartSpec>, total_size: int, i: int, j: int)
    requires
        is_partition(parts, total_size),
        0 <= i < j < parts.len(),
    ensures
        parts[i].offset + parts[i].length <= parts[j].offset,
    decreases j - i,
{
    assert(parts[(j - 1) + 1].offset == parts[j - 1].offset + parts[j - 1].length);
    if i < j - 1 {
        lemma_offsets_ascend(parts, total_size, i, j - 1);
    }
}

/// Every plan tiles its object: the parts are contiguous, do not overlap,
/// their lengths add up to the object's size, their count stays within
/// `max_parts`, and their lengths stay within the size limits.
pub proof fn lemma_plan_partitions(total_size: u64, config: PlannerConfig, plan: PartPlanView)
    requires
        plan_outcome(total_size as int, config) == Ok::<PartPlanView, TransferError>(plan),
    ensures
        is_partition(plan.parts, total_size as int),
        non_overlapping(plan.parts),
        total_length(plan.parts) == total_size,
        plan.parts.len() <= config.max_parts,
        within_limits(plan.parts, config, total_size as int),
{
    let total = total_size as int;
    let s = config.stride(total);
    let c = config.part_count(total);
    lemma_stride_and_count(total, config);
    lemma_layout_is_partition(total, s, c);
    lemma_partition_total_length(plan.parts, total);
    lemma_partition_non_overlapping(plan.parts, total);
    assert(s * (c - 1) == (c - 1) * s) by (nonlinear_arith);
    assert(c * s == (c - 1) * s + s) by (nonlinear_arith);
}

/// A plan uses the fewest parts of its part size that hold the object, and
/// all its parts but the last have that size: any number of parts of at most
/// that size that hold the object is at least the plan's part count.
pub proof fn lemma_plan_uses_fewest_parts(
    total_size: u64,
    config: PlannerConfig,
    plan: PartPlanView,
    count: int,
)
    requires
        plan_outcome(total_size as int, config) == Ok::<PartPlanView, TransferError>(plan),
        count >= 1,
        count * config.stride(total_size as int) >= total_size,
    ensures
        plan.parts.len() <= count,
        forall|i: int|
            0 <= i < plan.parts.len() - 1 ==> (#[trigger] plan.parts[i]).length == config.stride(
                total_size as int,
            ),
{
    let total = total_size as int;
    lemma_stride_and_count(total, config);
    lemma_layout_is_partition(total, config.stride(total), config.part_count(total));
    if !config.is_simple(total) {
        lemma_ceil_div_least(total, config.stride(total), count);
    }
}

/// Planning is a function of its inputs: two plans for the same size under
/// the same limits are the same plan.
pub proof fn lemma_plan_deterministic(
    total_size: u64,
    config: PlannerConfig,
    first: PartPlanView,
    second: PartPlanView,
)
    requires
        plan_outcome(total_size as int, config) == Ok::<PartPlanView, TransferError>(first),
        plan_outcome(total_size as int, config) == Ok::<PartPlanView, TransferError>(second),
    ensures
        first == second,
{
}

/// An empty object is planned as one empty part, moved in a single operation.
pub proof fn lemma_empty_object_plan(config: PlannerConfig)
    requires
        config.valid(),
    ensures
        plan_outcome(0, config) == Ok::<PartPlanView, TransferError>(
            PartPlanView {
                parts: seq![PartSpec { part_number: 1, offset: 0, length: 0 }],
                simple: true,
                total_size: 0,
            },
        ),
{
    assert(config.max_part_size * config.max_parts >= 0) by (nonlinear_arith)
        requires
            config.max_part_size >= 0,
            config.max_parts >= 0,
    ;
    let stride = config.stride(0);
    assert(0 * stride == 0 && stride * (1 - 1) == 0) by (nonlinear_arith);
    assert(config.layout(0) =~= seq![PartSpec { part_number: 1, offset: 0, length: 0 }]);
}

/// Plans the transfer of an object of `total_size` bytes.
///
/// An object of at most `min_part_size` bytes becomes one part, flagged for a
/// single operation. A larger one is cut into parts of
/// `max(min_part_size, ceil(total_size / max_parts))` bytes, the last part
/// taking what is left. Limits that contradict each other are refused as
/// `InvalidConfiguration`, an object that `max_parts` parts of
/// `max_part_size` bytes cannot hold as `SizeUnsupported`.
pub fn plan(total_size: u64, config: &PlannerConfig) -> (r: Result<PartPlan, TransferError>)
    ensures
        match r {
            Ok(p) => plan_outcome(total_size as int, *config) == Ok::<PartPlanView, TransferError>(
                p@,
            ),
            Err(e) => plan_outcome(total_size as int, *config) == Err::<
                PartPlanView,
                TransferError,
            >(e),
        },
{
    if !config.is_valid() {
        return Err(TransferError::whole(ErrorKind::InvalidConfiguration));
    }
    let ghost total = total_size as int;
    assert(config.max_part_size * config.max_parts <= u64::MAX * u32::MAX) by (nonlinear_arith)
        requires
            0 <= config.max_part_size <= u64::MAX,
            0 <= config.max_parts <= u32::MAX,
    ;
    let capacity: u128 = (config.max_part_size as u128) * (config.max_parts as u128);
    if total_size as u128 > capacity {
        return Err(TransferError::whole(ErrorKind::SizeUnsupported));
    }
    proof {
        lemma_stride_and_count(total, *config);
        lemma_layout_is_partition(total, config.stride(total), config.part_count(total));
    }
    if total_size <= config.min_part_size {
        let mut parts: Vec<PartSpec> = Vec::new();
        parts.push(PartSpec { part_number: 1, offset: 0, length: total_size });
        proof {
            assert(0 * total == 0 && total * (1 - 1) == 0) by (nonlinear_arith);
            assert(parts@ =~= config.layout(total));
        }
        return Ok(PartPlan { parts, simple: true, total_size });
    }
    let max_parts: u64 = config.max_parts as u64;
    let quotient: u64 = total_size / max_parts;
    let wanted: u64 = if total_size % max_parts == 0 {
        quotient
    } else {
        proof {
            lemma_ceil_div_bounds(total, max_parts as int);
            lemma_ceil_div_least(total, max_parts as int, config.max_part_size as int);
        }
        quotient + 1
    };
    let floor: u64 = if wanted < config.min_part_size {
        config.min_part_size
    } else {
        wanted
    };
    let part_size: u64 = if floor > config.max_part_size {
        config.max_part_size
    } else {
        floor
    };
    assert(part_size == config.part_size(total));
    let whole_parts: u64 = total_size / part_size;
    let count: u64 = if total_size % part_size == 0 {
        whole_parts
    } else {
        whole_parts + 1
    };
    assert(count == config.part_count(total));
    let ghost target = config.layout(total);
    let mut parts: Vec<PartSpec> = Vec::new();
    let mut index: u64 = 0;
    while index < count
        invariant
            index <= count,
            1 <= count <= u32::MAX,
            1 <= part_size,
            (count - 1) * part_size < total_size,
            target == layout(total_size as int, part_size as int, count as int),
            target.len() == count,
            parts@.len() == index,
            forall|k: int| 0 <= k < index ==> parts@[k] == target[k],
        decreases count - index,
    {
        assert(index * part_size <= (count - 1) * part_size && part_size * (count - 1) == (count
            - 1) * part_size) by (nonlinear_arith)
            requires
                0 <= index <= count - 1,
                1 <= part_size,
        ;
        let offset: u64 = index * part_size;
        let length: u64 = if index + 1 < count {
            part_size
        } else {
            total_size - offset
        };
        parts.push(PartSpec { part_number: (index + 1) as u32, offset, length });
        index = index + 1;
    }
    assert(parts@ =~= target);
    Ok(PartPlan { parts, simple: false, total_size })
}

/// The outcome of planning for a source that reports `upper_bound` as the most
/// it holds: without such a bound the part count cannot be kept within its
/// limit, and the source is refused; with one, the plan is made for it.
pub open spec fn plan_for_outcome(upper_bound: Option<u64>, config: PlannerConfig) -> Result<
    PartPlanView,
    TransferError,
> {
    match upper_bound {
        None => Err(TransferError { kind: ErrorKind::InvalidConfiguration, part_number: None }),
        Some(size) => plan_outcome(size as int, config),
    }
}

/// Plans the transfer of a source from the bounds it reports on its size.
/// A source with no upper bound is refused as `InvalidConfiguration`.
pub fn plan_for(hint: &SizeHint, config: &PlannerConfig) -> (r: Result<PartPlan, TransferError>)
    ensures
        match r {
            Ok(p) => plan_for_outcome(hint.spec_upper(), *config) == Ok::<
                PartPlanView,
                TransferError,
            >(p@),
            Err(e) => plan_for_outcome(hint.spec_upper(), *config) == Err::<
                PartPlanView,
                TransferError,
            >(e),
        },
{
    match hint.upper() {
        None => Err(TransferError::whole(ErrorKind::InvalidConfiguration)),
        Some(size) => plan(size, config),
    }
}

} // verus!
