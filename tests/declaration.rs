use arcdps_codegen::decl::{key_for, parse_declaration, DeclError, Declaration, Field, Key};
use arcdps_codegen::slot::{Binding, SlotId};

fn entry(name: &str, expr: &'static str) -> Field<&'static str> {
    Field { member: Some(name.to_string()), expr, literal: None }
}

fn text_entry(name: &str, text: &str) -> Field<&'static str> {
    Field { member: Some(name.to_string()), expr: "lit", literal: Some(text.to_string()) }
}

fn parse(fields: Vec<Field<&'static str>>) -> Result<Declaration<&'static str>, DeclError> {
    parse_declaration(fields)
}

#[test]
fn minimal_declaration_has_only_a_signature() {
    let d = parse(vec![entry("sig", "0xdead")]).unwrap();
    assert_eq!(d.sig, "0xdead");
    assert!(d.name.is_none());
    assert!(d.init.is_none());
    assert!(d.release.is_none());
    assert_eq!(d.slots.len(), 11);
    assert!(d.slots.iter().all(|b| matches!(b, Binding::Unbound)));
}

#[test]
fn signature_long_name_is_accepted() {
    let d = parse(vec![entry("signature", "7")]).unwrap();
    assert_eq!(d.sig, "7");
}

#[test]
fn missing_signature_is_refused() {
    assert_eq!(parse(vec![entry("combat", "cb")]).err(), Some(DeclError::MissingSignature));
    assert_eq!(parse(vec![]).err(), Some(DeclError::MissingSignature));
}

#[test]
fn unknown_field_is_refused_with_its_position() {
    let r = parse(vec![entry("sig", "1"), entry("combat", "cb"), entry("combat_remote", "x")]);
    assert_eq!(r.err(), Some(DeclError::UnknownField(2)));
}

#[test]
fn unnamed_field_is_refused() {
    let f = Field { member: None, expr: "x", literal: None };
    assert_eq!(parse(vec![entry("sig", "1"), f]).err(), Some(DeclError::Unnamed(1)));
}

#[test]
fn name_must_be_text() {
    let r = parse(vec![entry("name", "not_a_literal"), entry("sig", "1")]);
    assert_eq!(r.err(), Some(DeclError::NameNotText(0)));
    let d = parse(vec![text_entry("name", "my addon"), entry("sig", "1")]).unwrap();
    assert_eq!(d.name.as_deref(), Some("my addon"));
}

#[test]
fn raw_then_safe_is_exclusive() {
    let r = parse(vec![entry("sig", "1"), entry("raw_imgui", "a"), entry("imgui", "b")]);
    assert_eq!(r.err(), Some(DeclError::Exclusive { index: 2, slot: SlotId::Imgui, raw: false }));
}

#[test]
fn safe_then_raw_is_exclusive() {
    let r = parse(vec![
        entry("unofficial_extras_chat_message2", "a"),
        entry("sig", "1"),
        entry("raw_unofficial_extras_chat_message2", "b"),
    ]);
    assert_eq!(
        r.err(),
        Some(DeclError::Exclusive { index: 2, slot: SlotId::ExtrasChatMessage2, raw: true })
    );
}

#[test]
fn first_fault_decides_the_error() {
    let r = parse(vec![entry("bogus", "x"), entry("raw_combat", "a"), entry("combat", "b")]);
    assert_eq!(r.err(), Some(DeclError::UnknownField(0)));
}

#[test]
fn later_entry_overrides_earlier() {
    let d = parse(vec![
        entry("sig", "1"),
        entry("init", "first"),
        entry("sig", "2"),
        entry("init", "second"),
        entry("raw_combat", "a"),
        entry("raw_combat", "b"),
    ])
    .unwrap();
    assert_eq!(d.sig, "2");
    assert_eq!(d.init, Some("second"));
    assert!(matches!(d.slots[SlotId::Combat.index()], Binding::Raw("b")));
}

#[test]
fn every_slot_name_is_recognised() {
    let names = [
        "combat",
        "combat_local",
        "imgui",
        "options_end",
        "options_windows",
        "wnd_filter",
        "wnd_nofilter",
        "unofficial_extras_init",
        "unofficial_extras_squad_update",
        "unofficial_extras_chat_message",
        "unofficial_extras_chat_message2",
    ];
    for (i, n) in names.iter().enumerate() {
        let s = SlotId::from_index(i);
        assert_eq!(key_for(n), Some(Key::Safe(s)));
        assert_eq!(key_for(&format!("raw_{}", n)), Some(Key::Raw(s)));
        assert_eq!(s.safe_name_str(), *n);
    }
    assert_eq!(key_for("release"), Some(Key::Release));
    assert_eq!(key_for("sig"), Some(Key::Sig));
    assert_eq!(key_for("signature"), Some(Key::Signature));
    assert_eq!(key_for("init"), Some(Key::Init));
    assert_eq!(key_for("name"), Some(Key::Name));
    assert_eq!(key_for("raw_"), None);
    assert_eq!(key_for(""), None);
}

#[test]
fn hooks_and_bindings_are_kept() {
    let d = parse(vec![
        entry("release", "rel"),
        entry("sig", "1"),
        entry("wnd_filter", "wf"),
        entry("raw_options_end", "oe"),
    ])
    .unwrap();
    assert_eq!(d.release, Some("rel"));
    assert!(matches!(d.slots[SlotId::WndFilter.index()], Binding::Safe("wf")));
    assert!(matches!(d.slots[SlotId::OptionsEnd.index()], Binding::Raw("oe")));
    assert!(matches!(d.slots[SlotId::WndNofilter.index()], Binding::Unbound));
}

#[test]
fn signature_under_both_names_is_refused_in_either_order() {
    let r = parse(vec![entry("sig", "1"), entry("combat", "cb"), entry("signature", "2")]);
    assert_eq!(r.err(), Some(DeclError::SignatureNamedTwice(2)));
    let r = parse(vec![entry("signature", "2"), entry("sig", "1")]);
    assert_eq!(r.err(), Some(DeclError::SignatureNamedTwice(1)));
}

#[test]
fn distinct_names_in_any_order_give_the_same_declaration() {
    let a = parse(vec![entry("signature", "5"), entry("raw_imgui", "ui"), entry("release", "r")])
        .unwrap();
    let b = parse(vec![entry("release", "r"), entry("raw_imgui", "ui"), entry("signature", "5")])
        .unwrap();
    assert_eq!(a.sig, b.sig);
    assert_eq!(a.release, b.release);
    assert!(matches!(a.slots[SlotId::Imgui.index()], Binding::Raw("ui")));
    assert!(matches!(b.slots[SlotId::Imgui.index()], Binding::Raw("ui")));
}
