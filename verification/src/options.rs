//! Option and flag types attached to plan and expression nodes.
//!
//! [`FunctionFlags`] is a bitset describing behavioural contracts of a
//! function call that optimizer passes rely on without inspecting the
//! function itself; nothing in this crate enforces the flags. The
//! remaining types carry per-node metadata (distinct, projection,
//! casting) that extraction and reconstruction preserve unchanged.

use std::sync::Arc;
use vstd::prelude::*;

verus! {

/// The physical engine may rename the output of this function.
pub const ALLOW_RENAME: u16 = 1 << 0;

/// Series handed to the function in a group-by keep their name.
pub const PASS_NAME_TO_APPLY: u16 = 1 << 1;

/// A wildcard argument expands to one call over all columns rather
/// than one call per column.
pub const INPUT_WILDCARD_EXPANSION: u16 = 1 << 2;

/// The function reduces its input to one row when used as a final
/// aggregation; mutually exclusive with `LENGTH_PRESERVING`.
pub const RETURNS_SCALAR: u16 = 1 << 3;

/// The function may re-enter the engine while it runs.
pub const OPTIONAL_RE_ENTRANT: u16 = 1 << 4;

/// The function accepts an empty input list.
pub const ALLOW_EMPTY_INPUTS: u16 = 1 << 5;

/// `f(concat(a, b)) == concat(f(a), f(b))`.
pub const ROW_SEPARABLE: u16 = 1 << 6;

/// `len(f(input)) == len(input)`; mutually exclusive with
/// `RETURNS_SCALAR`.
pub const LENGTH_PRESERVING: u16 = 1 << 7;

/// Nulls on the first input propagate to the output.
pub const PRESERVES_NULL_FIRST_INPUT: u16 = 1 << 8;

/// Nulls on any input propagate to the output.
pub const PRESERVES_NULL_ALL_INPUTS: u16 = 1 << 9;

/// Whether every bit of `mask` is set in `bits`.
pub open spec fn has_flags(bits: u16, mask: u16) -> bool {
    bits & mask == mask
}

/// Bitset of behavioural contracts attached to a function-call node.
///
/// The flags are pure metadata: optimizer passes are trusted to
/// respect them, and nothing in this crate checks a function against
/// the flags it claims.
#[derive(Clone, Copy, PartialEq, Eq, Structural, Debug, Hash)]
pub struct FunctionFlags {
    pub bits: u16,
}

impl FunctionFlags {
    /// The empty flag set.
    pub fn empty() -> (result: FunctionFlags)
        ensures
            result.bits == 0,
    {
        FunctionFlags { bits: 0 }
    }

    /// Whether every bit of `mask` is set.
    pub fn contains(self, mask: u16) -> (result: bool)
        ensures
            result == has_flags(self.bits, mask),
    {
        self.bits & mask == mask
    }

    /// Returns the set with every bit of `mask` added.
    pub fn with(self, mask: u16) -> (result: FunctionFlags)
        ensures
            result.bits == self.bits | mask,
    {
        FunctionFlags { bits: self.bits | mask }
    }

    /// Marks the function as element-wise: row-separable and
    /// length-preserving at once.
    pub fn set_elementwise(&mut self)
        ensures
            final(self).bits == old(self).bits | ROW_SEPARABLE | LENGTH_PRESERVING,
    {
        self.bits = self.bits | ROW_SEPARABLE | LENGTH_PRESERVING;
    }

    /// Whether the function is row-separable and length-preserving.
    pub fn is_elementwise(self) -> (result: bool)
        ensures
            result == has_flags(self.bits, ROW_SEPARABLE | LENGTH_PRESERVING),
    {
        self.contains(ROW_SEPARABLE | LENGTH_PRESERVING)
    }

    /// Whether the function is row-separable.
    pub fn is_row_separable(self) -> (result: bool)
        ensures
            result == has_flags(self.bits, ROW_SEPARABLE),
    {
        self.contains(ROW_SEPARABLE)
    }

    /// Whether the function is length-preserving.
    pub fn is_length_preserving(self) -> (result: bool)
        ensures
            result == has_flags(self.bits, LENGTH_PRESERVING),
    {
        self.contains(LENGTH_PRESERVING)
    }

    /// Whether the function reduces to a scalar.
    pub fn returns_scalar(self) -> (result: bool)
        ensures
            result == has_flags(self.bits, RETURNS_SCALAR),
    {
        self.contains(RETURNS_SCALAR)
    }
}

impl Default for FunctionFlags {
    /// No flags set.
    fn default() -> (result: Self)
        ensures
            result.bits == 0,
    {
        FunctionFlags { bits: 0 }
    }
}

/// A boolean that may only be cleared deliberately; it defaults to
/// `true` because clearing it removes a safety check.
#[derive(Clone, Copy, PartialEq, Eq, Structural, Debug, Hash)]
pub struct UnsafeBool(pub bool);

impl Default for UnsafeBool {
    /// The safe state: the check stays enabled.
    fn default() -> (result: Self)
        ensures
            result.0 == true,
    {
        UnsafeBool(true)
    }
}

/// Options steering supertype resolution when arguments are cast to a
/// common type.
#[derive(Clone, Copy, PartialEq, Eq, Structural, Debug, Hash)]
pub struct SuperTypeOptions {
    pub flags: u8,
}

impl Default for SuperTypeOptions {
    /// No extra coercions enabled.
    fn default() -> (result: Self)
        ensures
            result.flags == 0,
    {
        SuperTypeOptions { flags: 0 }
    }
}

/// How the arguments of a function call are cast before the call.
#[derive(Clone, Copy, PartialEq, Eq, Structural, Debug, Hash)]
pub enum CastingRules {
    /// Casting must not lose information relative to the first
    /// argument; overflow is handled by strict casting elsewhere.
    FirstArgLossless,
    /// Cast every argument to the least common supertype.
    Supertype(SuperTypeOptions),
}

impl CastingRules {
    /// Supertype casting with default options.
    pub fn cast_to_supertypes() -> (result: CastingRules)
        ensures
            result == CastingRules::Supertype(SuperTypeOptions { flags: 0 }),
    {
        CastingRules::Supertype(SuperTypeOptions::default())
    }
}

/// Behaviour of a function-call node: output-length checking, the
/// behavioural flag set, and optional argument-casting rules.
#[derive(Clone, Copy, PartialEq, Eq, Structural, Debug, Hash)]
pub struct FunctionOptions {
    /// Validate the output length of a `map`; clearing this risks
    /// out-of-bounds access downstream.
    pub check_lengths: UnsafeBool,
    /// Behavioural contracts of the function.
    pub flags: FunctionFlags,
    /// How to cast the arguments, if at all.
    pub cast_options: Option<CastingRules>,
}

impl FunctionOptions {
    /// Whether output lengths are validated.
    pub fn check_lengths(&self) -> (result: bool)
        ensures
            result == self.check_lengths.0,
    {
        self.check_lengths.0
    }

    /// Marks the function as element-wise.
    pub fn set_elementwise(&mut self)
        ensures
            final(self).flags.bits == old(self).flags.bits | ROW_SEPARABLE | LENGTH_PRESERVING,
            final(self).check_lengths == old(self).check_lengths,
            final(self).cast_options == old(self).cast_options,
    {
        self.flags.set_elementwise();
    }

    /// Whether the function is row-separable and length-preserving.
    pub fn is_elementwise(&self) -> (result: bool)
        ensures
            result == has_flags(self.flags.bits, ROW_SEPARABLE | LENGTH_PRESERVING),
    {
        self.flags.is_elementwise()
    }

    /// Whether the function is length-preserving.
    pub fn is_length_preserving(&self) -> (result: bool)
        ensures
            result == has_flags(self.flags.bits, LENGTH_PRESERVING),
    {
        self.flags.contains(LENGTH_PRESERVING)
    }

    /// Whether the function is row-separable.
    pub fn is_row_separable(&self) -> (result: bool)
        ensures
            result == has_flags(self.flags.bits, ROW_SEPARABLE),
    {
        self.flags.is_row_separable()
    }

    /// Whether the function reduces to a scalar.
    pub fn returns_scalar(&self) -> (result: bool)
        ensures
            result == has_flags(self.flags.bits, RETURNS_SCALAR),
    {
        self.flags.returns_scalar()
    }

    /// Options for an element-wise function.
    pub fn elementwise() -> (result: FunctionOptions)
        ensures
            result.check_lengths.0 == true,
            result.flags.bits == ROW_SEPARABLE | LENGTH_PRESERVING,
            result.cast_options is None,
    {
        proof {
            assert(0u16 | (ROW_SEPARABLE | LENGTH_PRESERVING) == ROW_SEPARABLE
                | LENGTH_PRESERVING) by (bit_vector);
        }
        FunctionOptions::default().with_flags_mask(ROW_SEPARABLE | LENGTH_PRESERVING)
    }

    /// Options for an element-wise function whose output type is
    /// inferred; such a function is only known to preserve length.
    pub fn elementwise_with_infer() -> (result: FunctionOptions)
        ensures
            result.check_lengths.0 == true,
            result.flags.bits == LENGTH_PRESERVING,
            result.cast_options is None,
    {
        Self::length_preserving()
    }

    /// Options for a row-separable function.
    pub fn row_separable() -> (result: FunctionOptions)
        ensures
            result.check_lengths.0 == true,
            result.flags.bits == ROW_SEPARABLE,
            result.cast_options is None,
    {
        proof {
            assert(0u16 | ROW_SEPARABLE == ROW_SEPARABLE) by (bit_vector);
        }
        FunctionOptions::default().with_flags_mask(ROW_SEPARABLE)
    }

    /// Options for a length-preserving function.
    pub fn length_preserving() -> (result: FunctionOptions)
        ensures
            result.check_lengths.0 == true,
            result.flags.bits == LENGTH_PRESERVING,
            result.cast_options is None,
    {
        proof {
            assert(0u16 | LENGTH_PRESERVING == LENGTH_PRESERVING) by (bit_vector);
        }
        FunctionOptions::default().with_flags_mask(LENGTH_PRESERVING)
    }

    /// Options for a function that must see whole groups.
    pub fn groupwise() -> (result: FunctionOptions)
        ensures
            result.check_lengths.0 == true,
            result.flags.bits == 0,
            result.cast_options is None,
    {
        FunctionOptions::default()
    }

    /// Options for an aggregation: groupwise and scalar-returning.
    pub fn aggregation() -> (result: FunctionOptions)
        ensures
            result.check_lengths.0 == true,
            result.flags.bits == RETURNS_SCALAR,
            result.cast_options is None,
    {
        let mut options = Self::groupwise();
        options.flags = options.flags.with(RETURNS_SCALAR);
        proof {
            assert(0u16 | RETURNS_SCALAR == RETURNS_SCALAR) by (bit_vector);
        }
        options
    }

    /// Adds supertype casting with the given options.
    pub fn with_supertyping(self, supertype_options: SuperTypeOptions) -> (result: FunctionOptions)
        ensures
            result == (FunctionOptions {
                cast_options: Some(CastingRules::Supertype(supertype_options)),
                ..self
            }),
    {
        self.with_casting_rules(CastingRules::Supertype(supertype_options))
    }

    /// Replaces the casting rules.
    pub fn with_casting_rules(self, casting_rules: CastingRules) -> (result: FunctionOptions)
        ensures
            result == (FunctionOptions { cast_options: Some(casting_rules), ..self }),
    {
        let mut out = self;
        out.cast_options = Some(casting_rules);
        out
    }

    /// Adds every bit of `mask` to the flag set.
    pub fn with_flags_mask(self, mask: u16) -> (result: FunctionOptions)
        ensures
            result.flags.bits == self.flags.bits | mask,
            result.check_lengths == self.check_lengths,
            result.cast_options == self.cast_options,
    {
        let mut out = self;
        out.flags = out.flags.with(mask);
        out
    }

    /// Rewrites the flag set with the given function.
    pub fn with_flags<F: Fn(FunctionFlags) -> FunctionFlags>(self, f: F) -> (result:
        FunctionOptions)
        requires
            f.requires((self.flags,)),
        ensures
            f.ensures((self.flags,), result.flags),
            result.check_lengths == self.check_lengths,
            result.cast_options == self.cast_options,
    {
        let mut out = self;
        out.flags = f(out.flags);
        out
    }
}

impl Default for FunctionOptions {
    /// Length checking on, no flags, no casting rules.
    fn default() -> (result: Self)
        ensures
            result.check_lengths.0 == true,
            result.flags.bits == 0,
            result.cast_options is None,
    {
        FunctionOptions {
            check_lengths: UnsafeBool(true),
            flags: FunctionFlags { bits: 0 },
            cast_options: None,
        }
    }
}

/// How a single expression is sorted.
#[derive(Clone, Copy, PartialEq, Eq, Structural, Debug, Hash)]
pub struct SortOptions {
    pub descending: bool,
    pub nulls_last: bool,
    pub multithreaded: bool,
    pub maintain_order: bool,
    /// Keep only the first `limit` rows of the sorted result.
    pub limit: Option<u64>,
}

impl Default for SortOptions {
    /// Ascending, nulls first, multithreaded, unstable, no limit.
    fn default() -> (result: Self)
        ensures
            result.descending == false,
            result.nulls_last == false,
            result.multithreaded == true,
            result.maintain_order == false,
            result.limit is None,
    {
        SortOptions {
            descending: false,
            nulls_last: false,
            multithreaded: true,
            maintain_order: false,
            limit: None,
        }
    }
}

/// How a list of sort keys is sorted, one entry per key.
#[derive(Clone, PartialEq, Eq, Debug)]
pub struct SortMultipleOptions {
    /// Per-key descending flags.
    pub descending: Vec<bool>,
    /// Per-key nulls-last flags.
    pub nulls_last: Vec<bool>,
    pub multithreaded: bool,
    pub maintain_order: bool,
    /// Keep only the first `limit` rows of the sorted result.
    pub limit: Option<u64>,
}

impl SortMultipleOptions {
    /// Whether `self` and `other` agree in every observable field.
    pub open spec fn obs_eq(&self, other: &SortMultipleOptions) -> bool {
        &&& self.descending@ == other.descending@
        &&& self.nulls_last@ == other.nulls_last@
        &&& self.multithreaded == other.multithreaded
        &&& self.maintain_order == other.maintain_order
        &&& self.limit == other.limit
    }

    /// Copy that agrees with `self` in every observable field.
    pub fn deep_clone(&self) -> (result: SortMultipleOptions)
        ensures
            result.obs_eq(self),
    {
        let result = SortMultipleOptions {
            descending: self.descending.clone(),
            nulls_last: self.nulls_last.clone(),
            multithreaded: self.multithreaded,
            maintain_order: self.maintain_order,
            limit: self.limit,
        };
        proof {
            assert(result.descending@ =~= self.descending@);
            assert(result.nulls_last@ =~= self.nulls_last@);
        }
        result
    }
}

impl Default for SortMultipleOptions {
    /// No per-key flags yet, multithreaded, unstable, no limit.
    fn default() -> (result: Self)
        ensures
            result.descending@ == Seq::<bool>::empty(),
            result.nulls_last@ == Seq::<bool>::empty(),
            result.multithreaded == true,
            result.maintain_order == false,
            result.limit is None,
    {
        SortMultipleOptions {
            descending: Vec::new(),
            nulls_last: Vec::new(),
            multithreaded: true,
            maintain_order: false,
            limit: None,
        }
    }
}

/// Which duplicate row survives a distinct operation.
#[derive(Clone, Copy, PartialEq, Eq, Structural, Debug, Hash)]
pub enum UniqueKeepStrategy {
    /// Keep the first occurrence.
    First,
    /// Keep the last occurrence.
    Last,
    /// Keep any one occurrence.
    Any,
    /// Keep only rows that occur exactly once.
    NoneKept,
}

/// Options of a distinct plan node.
#[derive(Clone, PartialEq, Eq, Debug)]
pub struct DistinctOptionsIR {
    /// Columns that participate in the duplicate check; all columns
    /// when absent.
    pub subset: Option<Arc<Vec<String>>>,
    /// Keep the input order; more expensive when set.
    pub maintain_order: bool,
    /// Which duplicate row survives.
    pub keep_strategy: UniqueKeepStrategy,
    /// Keep only this slice of the result.
    pub slice: Option<(i64, usize)>,
}

impl DistinctOptionsIR {
    /// Copy sharing the same subset list, equal to `self`.
    pub fn duplicate(&self) -> (result: DistinctOptionsIR)
        ensures
            result == *self,
    {
        DistinctOptionsIR {
            subset: match &self.subset {
                Some(s) => Some(crate::ir::clone_arc(s)),
                None => None,
            },
            maintain_order: self.maintain_order,
            keep_strategy: self.keep_strategy,
            slice: self.slice,
        }
    }
}

/// Options of projection-like plan nodes (select, with-columns).
#[derive(Clone, Copy, PartialEq, Eq, Structural, Debug, Hash)]
pub struct ProjectionOptions {
    /// Evaluate the expressions in parallel.
    pub run_parallel: bool,
    /// Fail on duplicate output names.
    pub duplicate_check: bool,
    /// Broadcast length-1 columns to the frame's height.
    pub should_broadcast: bool,
}

impl Default for ProjectionOptions {
    /// Parallel, duplicate-checked, broadcasting.
    fn default() -> (result: Self)
        ensures
            result.run_parallel == true,
            result.duplicate_check == true,
            result.should_broadcast == true,
    {
        ProjectionOptions { run_parallel: true, duplicate_check: true, should_broadcast: true }
    }
}

impl ProjectionOptions {
    /// Conservatively merges two option sets: parallelism and
    /// duplicate checking only when both sides have them, broadcasting
    /// when either side asks for it.
    pub fn merge_options(&self, other: &Self) -> (result: Self)
        ensures
            result.run_parallel == (self.run_parallel && other.run_parallel),
            result.duplicate_check == (self.duplicate_check && other.duplicate_check),
            result.should_broadcast == (self.should_broadcast || other.should_broadcast),
    {
        ProjectionOptions {
            run_parallel: self.run_parallel && other.run_parallel,
            duplicate_check: self.duplicate_check && other.duplicate_check,
            should_broadcast: self.should_broadcast || other.should_broadcast,
        }
    }
}

} // verus!
