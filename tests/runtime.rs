use std::cell::Cell;

use arcdps_codegen::adapter::{
    c_text, extras_user_args, filtered, key_event, loading_flag, strip_colons, wnd_adapter,
    WM_KEYDOWN, WM_KEYUP, WM_SYSKEYDOWN, WM_SYSKEYUP,
};
use arcdps_codegen::extras::{fields_to_fill, subscriber_init, AddonInfo, ExtrasAddresses, SubscriberInfo};
use arcdps_codegen::export::{ExportTable, SizeField};
use arcdps_codegen::state::{EntryPoint, ProcessState, TableRef};

const WM_MOUSEMOVE: u32 = 0x200;

#[test]
fn wnd_key_down_swallowed_when_callback_refuses() {
    let cb = |_k: usize, _d: bool, _p: bool| false;
    assert_eq!(wnd_adapter(&cb, WM_KEYDOWN, 0x41, 0), 0);
}

#[test]
fn wnd_key_down_passes_when_callback_accepts() {
    let cb = |_k: usize, _d: bool, _p: bool| true;
    assert_eq!(wnd_adapter(&cb, WM_KEYDOWN, 0x41, 0), WM_KEYDOWN);
}

#[test]
fn wnd_unrelated_message_never_calls_back() {
    let calls = Cell::new(0u32);
    let cb = |_k: usize, _d: bool, _p: bool| {
        calls.set(calls.get() + 1);
        false
    };
    assert_eq!(wnd_adapter(&cb, WM_MOUSEMOVE, 1, 1), WM_MOUSEMOVE);
    assert_eq!(calls.get(), 0);
}

#[test]
fn wnd_callback_sees_key_state() {
    let seen = Cell::new((0usize, false, false));
    let cb = |k: usize, d: bool, p: bool| {
        seen.set((k, d, p));
        true
    };
    assert_eq!(wnd_adapter(&cb, WM_SYSKEYUP, 0x12, 1 << 30), WM_SYSKEYUP);
    assert_eq!(seen.get(), (0x12, false, true));
    assert_eq!(wnd_adapter(&cb, WM_SYSKEYDOWN, 0x13, 0), WM_SYSKEYDOWN);
    assert_eq!(seen.get(), (0x13, true, false));
}

#[test]
fn key_event_bits() {
    assert_eq!(key_event(WM_KEYDOWN, 0), Some((true, false)));
    assert_eq!(key_event(WM_KEYUP, 0x4000_0000), Some((false, true)));
    assert_eq!(key_event(WM_KEYUP, 0x2000_0000), Some((false, false)));
    assert_eq!(key_event(WM_SYSKEYDOWN, -1), Some((true, true)));
    assert_eq!(key_event(0x102, 0), None);
    assert_eq!(filtered(WM_KEYUP, true), WM_KEYUP);
    assert_eq!(filtered(WM_KEYUP, false), 0);
}

#[test]
fn loading_flag_is_nonzero() {
    assert!(!loading_flag(0));
    assert!(loading_flag(1));
    assert!(loading_flag(0xffff_ffff));
}

#[test]
fn c_text_reads_up_to_the_nul() {
    assert_eq!(c_text(None), None);
    assert_eq!(c_text(Some(b"Options\0junk")), Some("Options".to_string()));
    assert_eq!(c_text(Some(b"no terminator")), Some("no terminator".to_string()));
    assert_eq!(c_text(Some(b"\0")), Some(String::new()));
    assert_eq!(c_text(Some(&[0xc3, 0xa9, 0])), Some("\u{e9}".to_string()));
    assert_eq!(c_text(Some(&[0xff, 0xfe, 0])), Some(String::new()));
}

#[test]
fn account_name_loses_its_leading_colons() {
    assert_eq!(strip_colons(":Name.1234"), "Name.1234");
    assert_eq!(strip_colons("::a:b"), "a:b");
    assert_eq!(strip_colons(":"), "");
    assert_eq!(strip_colons("plain"), "plain");
    let (user, version) = extras_user_args(Some(b":Player.5678\0"), Some(b"1.4.0\0"));
    assert_eq!(user.as_deref(), Some("Player.5678"));
    assert_eq!(version.as_deref(), Some("1.4.0"));
    assert_eq!(extras_user_args(None, None), (None, None));
}

const ADDRS: ExtrasAddresses =
    ExtrasAddresses { name: 0x10, squad_update: 0x20, chat_message: 0x30, chat_message2: 0x40 };

fn record(n: usize) -> SubscriberInfo {
    SubscriberInfo { info_version: 0, unused: 7, fields: vec![0xaa; n] }
}

#[test]
fn extras_v1_host_gets_only_v1_fields() {
    let mut sub = record(6);
    let addon = AddonInfo { api_version: 2, max_info_version: 1 };
    assert!(subscriber_init(&addon, &mut sub, &ADDRS));
    assert_eq!(sub.info_version, 1);
    assert_eq!(sub.unused, 7);
    assert_eq!(sub.fields, vec![0x10, 0x20, 0, 0, 0xaa, 0xaa]);
}

#[test]
fn extras_v1_record_of_exact_size() {
    let mut sub = record(4);
    let addon = AddonInfo { api_version: 2, max_info_version: 1 };
    assert!(subscriber_init(&addon, &mut sub, &ADDRS));
    assert_eq!(sub.fields, vec![0x10, 0x20, 0, 0]);
}

#[test]
fn extras_v2_host() {
    let mut sub = record(5);
    let addon = AddonInfo { api_version: 2, max_info_version: 2 };
    assert!(subscriber_init(&addon, &mut sub, &ADDRS));
    assert_eq!(sub.info_version, 2);
    assert_eq!(sub.fields, vec![0x10, 0x20, 0, 0, 0x30]);
}

#[test]
fn extras_newer_host_gets_v3() {
    let mut sub = record(6);
    let addon = AddonInfo { api_version: 2, max_info_version: 5 };
    assert!(subscriber_init(&addon, &mut sub, &ADDRS));
    assert_eq!(sub.info_version, 3);
    assert_eq!(sub.fields, vec![0x10, 0x20, 0, 0, 0x30, 0x40]);
}

#[test]
fn extras_versions_nest() {
    let mut s1 = record(6);
    let mut s2 = record(6);
    let mut s3 = record(6);
    assert!(subscriber_init(&AddonInfo { api_version: 2, max_info_version: 1 }, &mut s1, &ADDRS));
    assert!(subscriber_init(&AddonInfo { api_version: 2, max_info_version: 2 }, &mut s2, &ADDRS));
    assert!(subscriber_init(&AddonInfo { api_version: 2, max_info_version: 3 }, &mut s3, &ADDRS));
    assert_eq!(s1.fields[..4], s2.fields[..4]);
    assert_eq!(s2.fields[..5], s3.fields[..5]);
}

#[test]
fn extras_other_api_version_writes_nothing() {
    for api in [0u32, 1, 3, 100] {
        let mut sub = record(6);
        let addon = AddonInfo { api_version: api, max_info_version: 3 };
        assert!(!subscriber_init(&addon, &mut sub, &ADDRS));
        assert_eq!(sub.info_version, 0);
        assert_eq!(sub.unused, 7);
        assert_eq!(sub.fields, vec![0xaa; 6]);
    }
}

#[test]
fn extras_host_without_versions_writes_nothing() {
    let mut sub = record(0);
    let addon = AddonInfo { api_version: 2, max_info_version: 0 };
    assert!(!subscriber_init(&addon, &mut sub, &ADDRS));
    assert_eq!(sub.info_version, 0);
    assert!(sub.fields.is_empty());
}

fn table(size: SizeField, sig: Option<u64>) -> ExportTable<u64> {
    ExportTable {
        size,
        sig,
        imgui_version: 18000,
        out_build: "0.1.0\0".to_string(),
        out_name: "addon\0".to_string(),
        combat: None,
        combat_local: None,
        imgui: None,
        options_end: None,
        options_windows: None,
        wnd_filter: None,
        wnd_nofilter: None,
    }
}

fn fresh() -> ProcessState<u64> {
    ProcessState::new(table(SizeField::TableSize, Some(0xbeef)), table(SizeField::Zero, None))
}

#[test]
fn failed_load_hands_out_the_error_shadow() {
    let mut st = fresh();
    let t = st.load(Err("boom".to_string()));
    assert_eq!(t, TableRef::ErrorShadow);
    assert_ne!(t, TableRef::Success);
    assert_eq!(st.export_error.size, SizeField::ErrorText);
    assert_eq!(st.error_text.as_bytes(), b"boom\0");
    assert_eq!(st.table(t).size, SizeField::ErrorText);
    assert_eq!(st.table(t).out_name, "addon\0");
    assert_eq!(st.export.size, SizeField::TableSize);
}

#[test]
fn successful_load_hands_out_the_success_table() {
    let mut st = fresh();
    let t = st.load(Ok(()));
    assert_eq!(t, TableRef::Success);
    assert_eq!(st.table(t).sig, Some(0xbeef));
    assert_eq!(st.export_error.size, SizeField::Zero);
    assert!(st.error_text.is_empty());
}

#[test]
fn entry_points_repeat() {
    let mut st = fresh();
    assert_eq!(st.attach(0x1000, 0x2000), EntryPoint::Load);
    assert_eq!(st.attach(0x1000, 0x2000), EntryPoint::Load);
    assert_eq!(st.swapchain, Some(0x1000));
    assert_eq!(st.ui_context, Some(0x2000));
    assert_eq!(st.release_addr(), EntryPoint::Unload);
    assert_eq!(st.release_addr(), EntryPoint::Unload);
    assert_eq!(st.load(Ok(())), st.load(Ok(())));
    let a = st.load(Err("boom".to_string()));
    let b = st.load(Err("boom".to_string()));
    assert_eq!(a, b);
    assert_eq!(st.error_text, "boom\0");
}

#[test]
fn attach_with_null_handles() {
    let mut st = fresh();
    st.attach(0, 0);
    assert_eq!(st.swapchain, None);
    assert_eq!(st.ui_context, None);
}

#[test]
fn fields_to_fill_by_host() {
    assert_eq!(fields_to_fill(&AddonInfo { api_version: 2, max_info_version: 0 }), 0);
    assert_eq!(fields_to_fill(&AddonInfo { api_version: 2, max_info_version: 1 }), 4);
    assert_eq!(fields_to_fill(&AddonInfo { api_version: 2, max_info_version: 2 }), 5);
    assert_eq!(fields_to_fill(&AddonInfo { api_version: 2, max_info_version: 3 }), 6);
    assert_eq!(fields_to_fill(&AddonInfo { api_version: 2, max_info_version: 9 }), 6);
    assert_eq!(fields_to_fill(&AddonInfo { api_version: 1, max_info_version: 3 }), 0);
}
