//! Per-device capture decisions: batching and the sink-switching hotkey.
//!
//! A capture loop reads raw events from one device and keeps a batch
//! buffer. A data event joins the batch; the synchronization marker
//! flushes the batch to the selector; a press of the reserved hotkey also
//! flushes — to whichever sink was active before — and then toggles the
//! selection between the two well-known sink names. No transition of the
//! hotkey ever reaches an output batch.

use vstd::prelude::*;

use crate::events::EV_KEY;
use crate::events::EV_SYN;
use crate::events::HOTKEY_CODE;
use crate::events::InputEvent;
use crate::events::SYN_REPORT_CODE;
use crate::selector::SinkSelector;
use crate::selector::dispatch_post;
use crate::sink::Sink;

verus! {

/// The selection a hotkey press switches to: away from `"local"` to
/// `"usb"`, and from anything else — `"usb"`, an unset selection, or a
/// foreign name — back to `"local"`.
pub open spec fn toggle_target(active: Option<Seq<char>>) -> Seq<char> {
    if active == Some("local"@) {
        "usb"@
    } else {
        "local"@
    }
}

/// Toggle the active selection between the two well-known sink names.
pub fn toggle_active<S: Sink>(sel: &mut SinkSelector<S>)
    ensures
        final(sel).sinks == old(sel).sinks,
        final(sel).active_key() == Some(toggle_target(old(sel).active_key())),
        old(sel).wf() ==> final(sel).wf(),
{
    let local_name: String = "local".to_owned();
    let is_local = match &sel.active {
        Some(k) => *k == local_name,
        None => false,
    };
    if is_local {
        sel.activate("usb".to_owned());
    } else {
        sel.activate("local".to_owned());
    }
}

/// Feed one raw device event into the capture state machine.
///
/// * The synchronization marker flushes the batch buffer to the selector
///   and clears it.
/// * A hotkey press flushes the batch to the selection active before the
///   press, clears it, then toggles the selection.
/// * Any other hotkey transition is a control event and is dropped.
/// * Every other event is appended to the batch buffer, in arrival order.
pub fn handle_event<S: Sink>(sel: &mut SinkSelector<S>, buf: &mut Vec<InputEvent>, ev: InputEvent)
    requires
        old(sel).wf(),
    ensures
        final(sel).wf(),
        ev.is_syn_report() ==> {
            &&& SinkSelector::post_emit(*old(sel), old(buf)@, *final(sel))
            &&& final(buf)@ == Seq::<InputEvent>::empty()
        },
        ev.is_hotkey_press() ==> {
            &&& dispatch_post(
                old(sel).sinks@,
                old(sel).active_key(),
                old(buf)@,
                final(sel).sinks@,
            )
            &&& final(sel).active_key() == Some(toggle_target(old(sel).active_key()))
            &&& final(buf)@ == Seq::<InputEvent>::empty()
        },
        ev.is_hotkey() && !ev.is_hotkey_press() ==> {
            &&& *final(sel) == *old(sel)
            &&& final(buf)@ == old(buf)@
        },
        !ev.is_syn_report() && !ev.is_hotkey() ==> {
            &&& *final(sel) == *old(sel)
            &&& final(buf)@ == old(buf)@.push(ev)
        },
{
    if ev.type_ == EV_SYN && ev.code == SYN_REPORT_CODE {
        sel.emit_events(buf);
        buf.clear();
    } else if ev.type_ == EV_KEY && ev.code == HOTKEY_CODE {
        if ev.value == 1 {
            sel.emit_events(buf);
            buf.clear();
            toggle_active(sel);
        }
    } else {
        buf.push(ev);
    }
}

/// Hotkey toggle law: with `"local"` active one press selects `"usb"`,
/// and a second press selects `"local"` again; from any other selection,
/// set or not, a press selects `"local"`.
pub proof fn lemma_hotkey_toggle()
    ensures
        toggle_target(Some("local"@)) == "usb"@,
        toggle_target(Some(toggle_target(Some("local"@)))) == "local"@,
        forall|a: Option<Seq<char>>| a != Some("local"@) ==> toggle_target(a) == "local"@,
{
    reveal_strlit("local");
    reveal_strlit("usb");
    assert(("usb"@).len() == 3);
    assert(("local"@).len() == 5);
}

} // verus!
