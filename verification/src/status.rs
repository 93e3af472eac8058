//! The exceptional conditions that a decNumber operation reports, as flags.
use vstd::prelude::*;

verus! {

/// The status flags of a decNumber context, one field per condition.
#[derive(Clone, Copy, Debug, PartialEq, Eq, Structural, Hash)]
pub struct Flags {
    pub conversion_syntax: bool,
    pub division_by_zero: bool,
    pub division_impossible: bool,
    pub division_undefined: bool,
    pub insufficient_storage: bool,
    pub inexact: bool,
    pub invalid_context: bool,
    pub invalid_operation: bool,
    pub overflow: bool,
    pub clamped: bool,
    pub rounded: bool,
    pub subnormal: bool,
    pub underflow: bool,
}

/// decNumber's `decContext` status word, declared so that its flags can be
/// read out.
#[verifier::external_type_specification]
#[verifier::external_body]
pub struct ExContextStatus(dec::Status);

impl Flags {
    /// No flag set.
    pub open spec fn none() -> Flags {
        Flags {
            conversion_syntax: false,
            division_by_zero: false,
            division_impossible: false,
            division_undefined: false,
            insufficient_storage: false,
            inexact: false,
            invalid_context: false,
            invalid_operation: false,
            overflow: false,
            clamped: false,
            rounded: false,
            subnormal: false,
            underflow: false,
        }
    }

    /// The flags set in `self` or in `other`.
    pub open spec fn join(self, other: Flags) -> Flags {
        Flags {
            conversion_syntax: self.conversion_syntax || other.conversion_syntax,
            division_by_zero: self.division_by_zero || other.division_by_zero,
            division_impossible: self.division_impossible || other.division_impossible,
            division_undefined: self.division_undefined || other.division_undefined,
            insufficient_storage: self.insufficient_storage || other.insufficient_storage,
            inexact: self.inexact || other.inexact,
            invalid_context: self.invalid_context || other.invalid_context,
            invalid_operation: self.invalid_operation || other.invalid_operation,
            overflow: self.overflow || other.overflow,
            clamped: self.clamped || other.clamped,
            rounded: self.rounded || other.rounded,
            subnormal: self.subnormal || other.subnormal,
            underflow: self.underflow || other.underflow,
        }
    }

    /// No flag set.
    pub fn empty() -> (r: Flags)
        ensures
            r == Flags::none(),
    {
        Flags {
            conversion_syntax: false,
            division_by_zero: false,
            division_impossible: false,
            division_undefined: false,
            insufficient_storage: false,
            inexact: false,
            invalid_context: false,
            invalid_operation: false,
            overflow: false,
            clamped: false,
            rounded: false,
            subnormal: false,
            underflow: false,
        }
    }

    /// The flags set in `self` or in `other`.
    pub fn union(self, other: Flags) -> (r: Flags)
        ensures
            r == self.join(other),
    {
        Flags {
            conversion_syntax: self.conversion_syntax || other.conversion_syntax,
            division_by_zero: self.division_by_zero || other.division_by_zero,
            division_impossible: self.division_impossible || other.division_impossible,
            division_undefined: self.division_undefined || other.division_undefined,
            insufficient_storage: self.insufficient_storage || other.insufficient_storage,
            inexact: self.inexact || other.inexact,
            invalid_context: self.invalid_context || other.invalid_context,
            invalid_operation: self.invalid_operation || other.invalid_operation,
            overflow: self.overflow || other.overflow,
            clamped: self.clamped || other.clamped,
            rounded: self.rounded || other.rounded,
            subnormal: self.subnormal || other.subnormal,
            underflow: self.underflow || other.underflow,
        }
    }

    /// The invalid-operation flag where `b` holds, and no other flag.
    pub open spec fn invalid_when(b: bool) -> Flags {
        Flags { invalid_operation: b, ..Flags::none() }
    }

    /// The conversion-syntax flag alone.
    pub open spec fn syntax_error() -> Flags {
        Flags { conversion_syntax: true, ..Flags::none() }
    }

    /// The conversion-syntax flag alone.
    pub fn syntax_flag() -> (r: Flags)
        ensures
            r == Flags::syntax_error(),
    {
        let mut f = Flags::empty();
        f.conversion_syntax = true;
        f
    }

    /// Whether any flag is set.
    pub fn any(&self) -> (r: bool)
        ensures
            r == (*self != Flags::none()),
    {
        self.conversion_syntax || self.division_by_zero || self.division_impossible
            || self.division_undefined || self.insufficient_storage || self.inexact
            || self.invalid_context || self.invalid_operation || self.overflow || self.clamped
            || self.rounded || self.subnormal || self.underflow
    }
}

/// Reads the thirteen condition flags out of a `dec::Status` through its
/// getters (`conversion_syntax()` and the rest), one field each.
#[verifier::external_body]
pub(crate) fn status_flags(st: dec::Status) -> (f: Flags) {
    Flags {
        conversion_syntax: st.conversion_syntax(),
        division_by_zero: st.division_by_zero(),
        division_impossible: st.division_impossible(),
        division_undefined: st.division_undefined(),
        insufficient_storage: st.insufficient_storage(),
        inexact: st.inexact(),
        invalid_context: st.invalid_context(),
        invalid_operation: st.invalid_operation(),
        overflow: st.overflow(),
        clamped: st.clamped(),
        rounded: st.rounded(),
        subnormal: st.subnormal(),
        underflow: st.underflow(),
    }
}

} // verus!
