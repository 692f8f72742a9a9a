//! Status codes of the COM interfaces, as plain integers.

use vstd::prelude::*;

verus! {

/// Success.
pub const S_OK: i32 = 0;

/// Success without an effect.
pub const S_FALSE: i32 = 1;

/// Unspecified failure, 0x80004005.
pub const E_FAIL: i32 = -2_147_467_259;

/// A required pointer is null, 0x80004003.
pub const E_POINTER: i32 = -2_147_467_261;

/// The interface is not supported, 0x80004002.
pub const E_NOINTERFACE: i32 = -2_147_467_262;

/// The class cannot be part of an aggregate, 0x80040110.
pub const CLASS_E_NOAGGREGATION: i32 = -2_147_221_232;

/// The class is not hosted here, 0x80040111.
pub const CLASS_E_CLASSNOTAVAILABLE: i32 = -2_147_221_231;

/// No media event is queued, 0xC00D3E80.
pub const MF_E_NO_EVENTS_AVAILABLE: i32 = -1_072_873_856;

} // verus!
