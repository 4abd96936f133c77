use vstd::prelude::*;
use crate::json::str_eq;
use crate::state::{AppState, after_offer};
use crate::templates::{BASE_LAYOUT, payment_layout, build_base_layout, build_payment_layout};

verus! {

/// Events named `nav_to:...` are handled by the front end alone.
pub open spec fn is_nav_to(id: Seq<char>) -> bool {
    id.len() >= 7 && id.subrange(0, 7) == "nav_to:"@
}

/// The layout an event asks for, given whether a read is in progress.
pub open spec fn event_candidate(id: Seq<char>, reading: bool) -> Option<Seq<char>> {
    if is_nav_to(id) {
        None
    } else if id == "go_payment"@ || id == "btn_proceed"@ {
        Some(payment_layout(reading, "— sin lectura aún —"@))
    } else if id == "nav_back"@ {
        Some(BASE_LAYOUT@)
    } else if id == "btn_read_msr"@ {
        Some(payment_layout(true, "Leyendo banda magnética."@))
    } else if id == "btn_cancel_msr"@ {
        Some(payment_layout(false, "Lectura cancelada por el usuario"@))
    } else if id == "print_from_button"@ {
        Some(payment_layout(reading, "Enviando a impresora."@))
    } else {
        None
    }
}

/// Whether a read is in progress after an event.
pub open spec fn event_reading(id: Seq<char>, reading: bool) -> bool {
    if is_nav_to(id) {
        reading
    } else if id == "btn_read_msr"@ {
        true
    } else if id == "btn_cancel_msr"@ {
        false
    } else {
        reading
    }
}

pub fn is_nav_to_exec(id: &str) -> (r: bool)
    ensures
        r == is_nav_to(id@),
{
    proof {
        reveal_strlit("nav_to:");
    }
    if id.unicode_len() < 7 {
        return false;
    }
    let p = id.substring_char(0, 7);
    str_eq(p, "nav_to:")
}

/// Handles an event from the local interface: builds the layout it asks for
/// and offers it to the state, handing back what is then on display. Nothing
/// for `nav_to:` events and for events it does not know.
pub fn on_ui_event(state: &mut AppState, event_id: &str) -> (r: Option<String>)
    ensures
        final(state).reading == event_reading(event_id@, old(state).reading),
        final(state).endpoint_snapshot@ == old(state).endpoint_snapshot@,
        final(state).ack_endpoint_snapshot@ == old(state).ack_endpoint_snapshot@,
        final(state).ack_init_snapshot == old(state).ack_init_snapshot,
        final(state).last_hb_millis == old(state).last_hb_millis,
        match event_candidate(event_id@, old(state).reading) {
            Some(c) => {
                &&& r is Some
                &&& (final(state).current_layout@, final(state).last_good_layout@) == after_offer(
                    old(state).current_layout@,
                    old(state).last_good_layout@,
                    c,
                )
                &&& r->0@ == final(state).current_layout@
            },
            None => {
                &&& r is None
                &&& final(state).same_layouts(old(state))
            },
        },
{
    if is_nav_to_exec(event_id) {
        return None;
    }
    proof {
        reveal_strlit("go_payment");
        reveal_strlit("btn_proceed");
        reveal_strlit("nav_back");
        reveal_strlit("btn_read_msr");
        reveal_strlit("btn_cancel_msr");
        reveal_strlit("print_from_button");
    }
    let candidate: String = if str_eq(event_id, "go_payment") || str_eq(event_id, "btn_proceed") {
        let reading = state.get_reading();
        build_payment_layout(reading, "— sin lectura aún —")
    } else if str_eq(event_id, "nav_back") {
        build_base_layout()
    } else if str_eq(event_id, "btn_read_msr") {
        state.set_reading(true);
        build_payment_layout(true, "Leyendo banda magnética.")
    } else if str_eq(event_id, "btn_cancel_msr") {
        state.set_reading(false);
        build_payment_layout(false, "Lectura cancelada por el usuario")
    } else if str_eq(event_id, "print_from_button") {
        let reading = state.get_reading();
        build_payment_layout(reading, "Enviando a impresora.")
    } else {
        return None;
    };
    Some(state.offer_layout(candidate.as_str()))
}

} // verus!
