use arcthumb::com::{
    can_unload_now, class_for, ComClass, CLSID_ARCTHUMB_PREVIEW, CLSID_ARCTHUMB_PROVIDER,
};
use arcthumb::hresult;

#[test]
fn known_classes_are_served() {
    assert_eq!(class_for(CLSID_ARCTHUMB_PROVIDER), Ok(ComClass::Provider));
    assert_eq!(class_for(CLSID_ARCTHUMB_PREVIEW), Ok(ComClass::Preview));
    assert_eq!(
        CLSID_ARCTHUMB_PROVIDER,
        0x0F4F5659_D383_4945_A534_01E1EED1D23F
    );
    assert_eq!(
        CLSID_ARCTHUMB_PREVIEW,
        0x8C7C1E5F_3D4A_4E2B_9F1A_7B5D6E8F9A0C
    );
}

#[test]
fn dll_get_class_object_rejects_unknown_clsid() {
    let bogus = 0xDEAD_BEEF_CAFE_BABE_0102_0304_0506_0708;
    assert_eq!(class_for(bogus), Err(0x80040111u32 as i32));
}

#[test]
fn dll_can_unload_now_returns_s_false() {
    assert_eq!(can_unload_now(), 1);
}

#[test]
fn status_codes_have_their_values() {
    assert_eq!(hresult::S_OK, 0);
    assert_eq!(hresult::S_FALSE, 1);
    assert_eq!(hresult::E_FAIL, 0x80004005u32 as i32);
    assert_eq!(hresult::E_POINTER, 0x80004003u32 as i32);
    assert_eq!(hresult::E_NOINTERFACE, 0x80004002u32 as i32);
    assert_eq!(hresult::CLASS_E_NOAGGREGATION, 0x80040110u32 as i32);
    assert_eq!(hresult::CLASS_E_CLASSNOTAVAILABLE, 0x80040111u32 as i32);
    assert_eq!(hresult::MF_E_NO_EVENTS_AVAILABLE, 0xC00D3E80u32 as i32);
}
