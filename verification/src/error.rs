//! The driver's error type.

use vstd::prelude::*;

verus! {

/// RM690B0 driver errors.
#[derive(Debug)]
pub enum DriverError<InterfaceError, ResetError> {
    /// Error originating from the display interface (QSPI/SPI/I2C).
    InterfaceError(InterfaceError),
    /// Error originating from the reset pin control.
    ResetError(ResetError),
    /// Invalid configuration provided to the driver.
    InvalidConfiguration(&'static str),
}

/// The driver's result for a result of the display interface, as a
/// mathematical function: success stays success, an error is wrapped as it is.
pub open spec fn lifted_interface<IE, RE>(r: Result<(), IE>) -> Result<(), DriverError<IE, RE>> {
    match r {
        Ok(()) => Ok(()),
        Err(e) => Err(DriverError::InterfaceError(e)),
    }
}

/// The driver's result for a result of the reset control.
pub open spec fn lifted_reset<IE, RE>(r: Result<(), RE>) -> Result<(), DriverError<IE, RE>> {
    match r {
        Ok(()) => Ok(()),
        Err(e) => Err(DriverError::ResetError(e)),
    }
}

/// Turns a result of the display interface into the driver's result.
pub fn lift_interface<IE, RE>(r: Result<(), IE>) -> (out: Result<(), DriverError<IE, RE>>)
    ensures
        out == lifted_interface::<IE, RE>(r),
{
    match r {
        Ok(()) => Ok(()),
        Err(e) => Err(DriverError::InterfaceError(e)),
    }
}

/// Turns a result of the reset control into the driver's result.
pub fn lift_reset<IE, RE>(r: Result<(), RE>) -> (out: Result<(), DriverError<IE, RE>>)
    ensures
        out == lifted_reset::<IE, RE>(r),
{
    match r {
        Ok(()) => Ok(()),
        Err(e) => Err(DriverError::ResetError(e)),
    }
}

} // verus!
