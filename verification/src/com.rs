//! The two classes that the shell creates objects of.

use vstd::prelude::*;

use crate::hresult::{CLASS_E_CLASSNOTAVAILABLE, CLASS_E_NOAGGREGATION, E_POINTER, S_FALSE};

verus! {

/// Identifier of the thumbnail provider. It is stored in users'
/// registries and never changes.
pub const CLSID_ARCTHUMB_PROVIDER: u128 = 0x0F4F5659_D383_4945_A534_01E1EED1D23F;

/// Identifier of the preview handler. It is stored in users' registries
/// and never changes; the two classes are switched on and off
/// independently.
pub const CLSID_ARCTHUMB_PREVIEW: u128 = 0x8C7C1E5F_3D4A_4E2B_9F1A_7B5D6E8F9A0C;

/// A class that the module hosts.
#[derive(Debug, Clone, Copy, PartialEq, Eq, Structural)]
pub enum ComClass {
    Provider,
    Preview,
}

/// The class with this identifier. Others are not available here.
pub fn class_for(clsid: u128) -> (class: Result<ComClass, i32>)
    ensures
        class == if clsid == CLSID_ARCTHUMB_PROVIDER {
            Ok::<ComClass, i32>(ComClass::Provider)
        } else if clsid == CLSID_ARCTHUMB_PREVIEW {
            Ok(ComClass::Preview)
        } else {
            Err(CLASS_E_CLASSNOTAVAILABLE)
        },
{
    if clsid == CLSID_ARCTHUMB_PROVIDER {
        Ok(ComClass::Provider)
    } else if clsid == CLSID_ARCTHUMB_PREVIEW {
        Ok(ComClass::Preview)
    } else {
        Err(CLASS_E_CLASSNOTAVAILABLE)
    }
}

/// The module is never unloaded: a cancelled loader may still be running
/// in it.
pub fn can_unload_now() -> (status: i32)
    ensures
        status == S_FALSE,
{
    S_FALSE
}

/// Status of a request to create an object: aggregation is not
/// supported, and neither the interface nor the place for the result may
/// be null.
pub open spec fn creation_status(aggregated: bool, no_interface: bool, no_result: bool) -> Result<
    (),
    i32,
> {
    if aggregated {
        Err(CLASS_E_NOAGGREGATION)
    } else if no_interface || no_result {
        Err(E_POINTER)
    } else {
        Ok(())
    }
}

/// Checks a request to create an object. `aggregated` says that an outer
/// object was given, the other flags that the interface or the place for
/// the result is null.
pub(crate) fn check_creation(aggregated: bool, no_interface: bool, no_result: bool) -> (
    status: Result<(), i32>)
    ensures
        status == creation_status(aggregated, no_interface, no_result),
{
    if aggregated {
        return Err(CLASS_E_NOAGGREGATION);
    }
    if no_interface || no_result {
        return Err(E_POINTER);
    }
    Ok(())
}

/// Aggregation is refused before anything else is looked at; then a null
/// interface or a null place for the result is. Everything else passes.
pub proof fn creation_is_refused_in_order(
    aggregated: bool,
    no_interface: bool,
    no_result: bool,
)
    ensures
        creation_status(true, no_interface, no_result) == Err::<(), i32>(CLASS_E_NOAGGREGATION),
        creation_status(false, true, no_result) == Err::<(), i32>(E_POINTER),
        creation_status(false, no_interface, true) == Err::<(), i32>(E_POINTER),
        creation_status(aggregated, no_interface, no_result) is Ok <==> !aggregated
            && !no_interface && !no_result,
{
}

} // verus!
