use hands_hub::capture::handle_event;
use hands_hub::capture::toggle_active;
use hands_hub::codec::encode;
use hands_hub::events::InputEvent;
use hands_hub::events::InputEventKind;
use hands_hub::events::Key;
use hands_hub::events::RelAxis;
use hands_hub::events::Syn;
use hands_hub::events::syn_report;
use hands_hub::selector::SinkSelector;
use hands_hub::sink::LocalSink;
use hands_hub::sink::SerialSink;
use hands_hub::sink::Sink;
use hands_hub::sink::SinkBox;
use hands_hub::sink::VoidSink;

fn ev(type_: u16, code: u16, value: i32) -> InputEvent {
    InputEvent { type_, code, value }
}

fn key_a_down() -> InputEvent {
    ev(1, 30, 1)
}

fn key_a_up() -> InputEvent {
    ev(1, 30, 0)
}

fn hotkey(value: i32) -> InputEvent {
    ev(1, 185, value)
}

/// A selector with a local sink under "local" and a serial sink under
/// "usb", as the hub registers them at startup.
fn hub_selector() -> SinkSelector<SinkBox> {
    let mut sel = SinkSelector::new();
    sel.add_sink("local".to_owned(), SinkBox::Local(LocalSink::new()));
    sel.add_sink("usb".to_owned(), SinkBox::Serial(SerialSink::new()));
    sel
}

fn drain_local(sel: &mut SinkSelector<SinkBox>) -> Vec<InputEvent> {
    match &mut sel.sinks[0].1 {
        SinkBox::Local(l) => l.take_pending(),
        _ => panic!("sink 0 is not the local sink"),
    }
}

fn drain_serial(sel: &mut SinkSelector<SinkBox>) -> Vec<u8> {
    match &mut sel.sinks[1].1 {
        SinkBox::Serial(s) => s.take_pending(),
        _ => panic!("sink 1 is not the serial sink"),
    }
}

#[test]
fn dispatch_delivers_batch_in_order() {
    let mut sel = hub_selector();
    sel.activate("local".to_owned());
    sel.emit_events(&vec![key_a_down(), key_a_up()]);
    assert_eq!(drain_local(&mut sel), vec![key_a_down(), key_a_up(), syn_report()]);
    assert_eq!(drain_serial(&mut sel), Vec::<u8>::new());
}

#[test]
fn dispatch_without_activation_drops_batch() {
    let mut sel = hub_selector();
    sel.emit_events(&vec![key_a_down(), key_a_up()]);
    assert_eq!(drain_local(&mut sel), Vec::<InputEvent>::new());
    assert_eq!(drain_serial(&mut sel), Vec::<u8>::new());
}

#[test]
fn dispatch_to_unregistered_name_drops_batch() {
    let mut sel = hub_selector();
    sel.activate("bogus".to_owned());
    sel.emit_events(&vec![key_a_down()]);
    assert_eq!(drain_local(&mut sel), Vec::<InputEvent>::new());
    assert_eq!(drain_serial(&mut sel), Vec::<u8>::new());
}

#[test]
fn activation_after_dispatch_keeps_delivered_batch() {
    let mut sel = hub_selector();
    sel.activate("local".to_owned());
    sel.emit_events(&vec![key_a_down(), key_a_up()]);
    sel.activate("usb".to_owned());
    assert_eq!(drain_local(&mut sel), vec![key_a_down(), key_a_up(), syn_report()]);
    assert_eq!(drain_serial(&mut sel), Vec::<u8>::new());
}

#[test]
fn serial_sink_receives_encoded_frames() {
    let mut sel = hub_selector();
    sel.activate("usb".to_owned());
    sel.emit_events(&vec![key_a_down()]);
    let mut expected = encode(key_a_down());
    expected.extend(encode(syn_report()));
    assert_eq!(drain_serial(&mut sel), expected);
    assert_eq!(drain_local(&mut sel), Vec::<InputEvent>::new());
}

#[test]
fn void_sink_discards_batches() {
    let mut sel: SinkSelector<SinkBox> = SinkSelector::new();
    sel.add_sink("void".to_owned(), SinkBox::Void(VoidSink));
    sel.activate("void".to_owned());
    sel.emit_events(&vec![key_a_down(), key_a_up()]);
}

#[test]
fn default_selector_has_no_selection() {
    let sel: SinkSelector<SinkBox> = SinkSelector::default();
    assert!(sel.active.is_none());
    assert!(sel.sinks.is_empty());
}

#[test]
fn hotkey_press_toggles_between_the_two_sinks() {
    let mut sel = hub_selector();
    sel.activate("local".to_owned());
    let mut buf = Vec::new();
    handle_event(&mut sel, &mut buf, hotkey(1));
    assert_eq!(sel.active.as_deref(), Some("usb"));
    handle_event(&mut sel, &mut buf, hotkey(1));
    assert_eq!(sel.active.as_deref(), Some("local"));
}

#[test]
fn hotkey_release_never_toggles() {
    let mut sel = hub_selector();
    sel.activate("local".to_owned());
    let mut buf = Vec::new();
    handle_event(&mut sel, &mut buf, hotkey(0));
    assert_eq!(sel.active.as_deref(), Some("local"));
    handle_event(&mut sel, &mut buf, hotkey(2));
    assert_eq!(sel.active.as_deref(), Some("local"));
    assert!(buf.is_empty());
}

#[test]
fn toggle_from_unset_selection_goes_local() {
    let mut sel = hub_selector();
    toggle_active(&mut sel);
    assert_eq!(sel.active.as_deref(), Some("local"));
}

#[test]
fn hotkey_press_with_unset_selection_activates_local() {
    let mut sel = hub_selector();
    let mut buf = Vec::new();
    handle_event(&mut sel, &mut buf, key_a_down());
    handle_event(&mut sel, &mut buf, hotkey(1));
    assert_eq!(sel.active.as_deref(), Some("local"));
    // The pre-press batch had no active sink, so nothing was delivered.
    assert_eq!(drain_local(&mut sel), Vec::<InputEvent>::new());
    assert_eq!(drain_serial(&mut sel), Vec::<u8>::new());
    assert!(buf.is_empty());
}

#[test]
fn hotkey_press_flushes_to_previously_active_sink() {
    let mut sel = hub_selector();
    sel.activate("local".to_owned());
    let mut buf = Vec::new();
    handle_event(&mut sel, &mut buf, key_a_down());
    handle_event(&mut sel, &mut buf, hotkey(1));
    assert!(buf.is_empty());
    assert_eq!(sel.active.as_deref(), Some("usb"));
    assert_eq!(drain_local(&mut sel), vec![key_a_down(), syn_report()]);
    assert_eq!(drain_serial(&mut sel), Vec::<u8>::new());
}

#[test]
fn capture_scenario_two_key_batch_reaches_local_sink() {
    let mut sel = hub_selector();
    sel.activate("local".to_owned());
    let mut buf = Vec::new();
    handle_event(&mut sel, &mut buf, key_a_down());
    handle_event(&mut sel, &mut buf, key_a_up());
    handle_event(&mut sel, &mut buf, ev(0, 0, 0));
    assert!(buf.is_empty());
    assert_eq!(drain_local(&mut sel), vec![key_a_down(), key_a_up(), syn_report()]);
}

#[test]
fn classification_of_known_codes() {
    assert_eq!(ev(0, 0, 0).kind(), InputEventKind::SynEvent(Syn::SynReport));
    assert_eq!(ev(1, 30, 1).kind(), InputEventKind::KeyEvent(Key::KeyA));
    assert_eq!(ev(1, 185, 1).kind(), InputEventKind::KeyEvent(Key::KeyF15));
    assert_eq!(ev(2, 0, -5).kind(), InputEventKind::RelEvent(RelAxis::RelX));
}

#[test]
fn classification_of_unknown_codes_is_the_sentinel() {
    assert_eq!(ev(1, 9999, 1).kind(), InputEventKind::KeyEvent(Key::KeyUnknown));
    assert_eq!(ev(1, 113, 1).kind(), InputEventKind::KeyEvent(Key::KeyUnknown));
    assert_eq!(ev(2, 999, 0).kind(), InputEventKind::RelEvent(RelAxis::RelUnknown));
    assert_eq!(ev(0, 77, 0).kind(), InputEventKind::SynEvent(Syn::SynUnknown));
    assert_eq!(ev(7, 0, 0).kind(), InputEventKind::UnknownEvent);
    assert_eq!(ev(0xFFFF, 0xFFFF, i32::MIN).kind(), InputEventKind::UnknownEvent);
}
