use vstd::prelude::*;

verus! {

/// Errors reported by the conversion layer. All of them are recoverable
/// values handed back to the caller; nothing in this crate aborts.
#[derive(Clone, Copy, Debug, PartialEq, Eq, Structural)]
pub enum ExplorerError {
    /// A column or scalar has a declared element type outside the closed
    /// supported set.
    UnsupportedDtype,
    /// A calendar value has fields that name no real date or time.
    InvalidDate,
    /// A date arithmetic result does not fit the target integer width.
    ConversionOverflow,
}

impl ExplorerError {
    /// A short description of the error.
    pub fn message(&self) -> (r: &'static str)
        ensures
            self matches ExplorerError::UnsupportedDtype ==> r@
                == "dtype not supported for conversion"@,
            self matches ExplorerError::InvalidDate ==> r@ == "invalid calendar value"@,
            self matches ExplorerError::ConversionOverflow ==> r@
                == "calendar arithmetic out of range"@,
    {
        match self {
            ExplorerError::UnsupportedDtype => "dtype not supported for conversion",
            ExplorerError::InvalidDate => "invalid calendar value",
            ExplorerError::ConversionOverflow => "calendar arithmetic out of range",
        }
    }
}

} // verus!
