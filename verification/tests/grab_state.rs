//! Grab state: passive grab lists, freezing and thawing, confinement.

use sidecar::grab::{
    ActiveKeyboardGrab, ActivePointerGrab, GrabState, PassiveButtonGrab, PassiveKeyGrab, MAX_FROZEN_EVENTS,
};

fn make_grab_state() -> GrabState {
    GrabState::default()
}

// -----------------------------------------------------------------------
// Passive button grab activation sets freeze state
// -----------------------------------------------------------------------

#[test]
fn passive_button_grab_sync_mode_freezes_pointer() {
    let mut gs = make_grab_state();
    // Add a passive button grab with pointer_mode=Synchronous (1)
    gs.button_grabs.push(PassiveButtonGrab {
        grab_window: 100,
        button: 1,
        modifiers: 0,
        event_mask: 0x04, // ButtonPressMask
        pointer_mode: 1,  // Synchronous
        keyboard_mode: 0, // Async
        confine_to: 0,
        cursor: 0,
        owner_events: false,
    });
    // Verify the grab has sync mode stored
    assert_eq!(gs.button_grabs[0].pointer_mode, 1);
    // When this grab activates, pointer_frozen should be set to true
    // (tested via check_passive_button_grab in integration tests)
}

#[test]
fn passive_button_grab_async_mode_no_freeze() {
    let mut gs = make_grab_state();
    gs.button_grabs.push(PassiveButtonGrab {
        grab_window: 100,
        button: 1,
        modifiers: 0,
        event_mask: 0x04,
        pointer_mode: 0, // Async
        keyboard_mode: 0,
        confine_to: 0,
        cursor: 0,
        owner_events: false,
    });
    assert_eq!(gs.button_grabs[0].pointer_mode, 0);
    assert!(!gs.pointer_frozen);
}

#[test]
fn passive_key_grab_sync_mode_freezes_keyboard() {
    let mut gs = make_grab_state();
    gs.key_grabs.push(PassiveKeyGrab {
        grab_window: 100,
        key: 38, // 'a'
        modifiers: 0,
        pointer_mode: 0,
        keyboard_mode: 1, // Synchronous
        owner_events: false,
    });
    assert_eq!(gs.key_grabs[0].keyboard_mode, 1);
}

// -----------------------------------------------------------------------
// GrabState freeze/thaw mechanics
// -----------------------------------------------------------------------

#[test]
fn pointer_sync_freeze_queues_event() {
    let mut gs = make_grab_state();
    gs.pointer_frozen = true;
    // Simulate a frozen event
    gs.frozen_pointer_events.push(vec![0u8; 32]);
    assert_eq!(gs.frozen_pointer_events.len(), 1);
}

#[test]
fn allow_events_async_pointer_thaws() {
    let mut gs = make_grab_state();
    gs.pointer_frozen = true;
    gs.pointer_sync_pending = true;
    gs.frozen_pointer_events.push(vec![0u8; 32]);

    // Simulate AllowEvents(AsyncPointer): mode 0
    gs.pointer_frozen = false;
    gs.pointer_sync_pending = false;
    let events = std::mem::take(&mut gs.frozen_pointer_events);
    assert_eq!(events.len(), 1);
    assert!(!gs.pointer_frozen);
    assert!(!gs.pointer_sync_pending);
}

#[test]
fn allow_events_sync_pointer_refreeze() {
    let mut gs = make_grab_state();
    gs.pointer_frozen = true;
    gs.frozen_pointer_events.push(vec![0u8; 32]);

    // Simulate AllowEvents(SyncPointer): mode 1
    gs.pointer_frozen = false;
    gs.pointer_sync_pending = true;
    let _events = std::mem::take(&mut gs.frozen_pointer_events);

    // sync_pending should cause re-freeze on next event
    assert!(gs.pointer_sync_pending);
    assert!(!gs.pointer_frozen);
}

#[test]
fn ungrab_keyboard_unfreezes_pointer_if_sync() {
    let mut gs = make_grab_state();
    // Simulate a keyboard grab with pointer_mode=Synchronous
    gs.keyboard_grab = Some(ActiveKeyboardGrab {
        grab_window: 100,
        pointer_mode: 1, // Synchronous — froze the pointer
        keyboard_mode: 0,
        owner_events: false,
    });
    gs.pointer_frozen = true;
    gs.frozen_pointer_events.push(vec![0u8; 32]);

    // Simulate UngrabKeyboard
    let grab = gs.keyboard_grab.take().unwrap();
    gs.keyboard_frozen = false;
    gs.keyboard_sync_pending = false;
    // Per spec: if keyboard grab had pointer_mode=Sync and no pointer grab,
    // unfreeze pointer too.
    if grab.pointer_mode == 1 && gs.pointer_grab.is_none() {
        gs.pointer_frozen = false;
        gs.pointer_sync_pending = false;
        let pevents = std::mem::take(&mut gs.frozen_pointer_events);
        assert_eq!(pevents.len(), 1);
    }
    assert!(!gs.pointer_frozen);
}

#[test]
fn ungrab_keyboard_keeps_pointer_frozen_if_pointer_grab_active() {
    let mut gs = make_grab_state();
    gs.keyboard_grab = Some(ActiveKeyboardGrab {
        grab_window: 100,
        pointer_mode: 1,
        keyboard_mode: 0,
        owner_events: false,
    });
    // Also have an active pointer grab (so we shouldn't unfreeze)
    gs.pointer_grab = Some(ActivePointerGrab {
        grab_window: 200,
        event_mask: 0x04,
        pointer_mode: 1,
        keyboard_mode: 0,
        confine_to: 0,
        cursor: 0,
        owner_events: false,
        confine_bounds: None,
    });
    gs.pointer_frozen = true;

    let grab = gs.keyboard_grab.take().unwrap();
    gs.keyboard_frozen = false;
    // Per spec: don't unfreeze if pointer_grab is still active
    if grab.pointer_mode == 1 && gs.pointer_grab.is_none() {
        gs.pointer_frozen = false;
    }
    // Pointer should still be frozen because pointer_grab is active
    assert!(gs.pointer_frozen);
}

// -----------------------------------------------------------------------
// Button release auto-ungrab thaws frozen events
// -----------------------------------------------------------------------

#[test]
fn auto_ungrab_thaws_frozen_pointer() {
    let mut gs = make_grab_state();
    gs.pointer_grab = Some(ActivePointerGrab {
        grab_window: 100,
        event_mask: 0x04,
        pointer_mode: 1,
        keyboard_mode: 0,
        confine_to: 0,
        cursor: 0,
        owner_events: false,
        confine_bounds: None,
    });
    gs.pointer_frozen = true;
    gs.frozen_pointer_events.push(vec![0u8; 32]);

    // Simulate all buttons released (button_mask = 0)
    let any_buttons_held = (0u16 & 0x1F00) != 0;
    assert!(!any_buttons_held);

    // Simulate auto-ungrab
    gs.pointer_frozen = false;
    gs.pointer_sync_pending = false;
    let events = std::mem::take(&mut gs.frozen_pointer_events);
    gs.pointer_grab = None;

    assert!(!gs.pointer_frozen);
    assert!(gs.pointer_grab.is_none());
    assert_eq!(events.len(), 1);
}

// -----------------------------------------------------------------------
// Confine bounds clamping
// -----------------------------------------------------------------------

#[test]
fn confine_clamp_within_bounds() {
    let mut gs = make_grab_state();
    gs.pointer_grab = Some(ActivePointerGrab {
        grab_window: 100,
        event_mask: 0,
        pointer_mode: 0,
        keyboard_mode: 0,
        confine_to: 200,
        cursor: 0,
        owner_events: false,
        confine_bounds: Some((100, 100, 300, 300)),
    });
    // Test: point inside bounds unchanged
    if let Some((x1, y1, x2, y2)) = gs.pointer_grab.as_ref().unwrap().confine_bounds {
        let cx = 150i16.max(x1).min(x2.saturating_sub(1));
        let cy = 200i16.max(y1).min(y2.saturating_sub(1));
        assert_eq!((cx, cy), (150, 200));
    }
}

#[test]
fn confine_clamp_outside_bounds() {
    let mut gs = make_grab_state();
    gs.pointer_grab = Some(ActivePointerGrab {
        grab_window: 100,
        event_mask: 0,
        pointer_mode: 0,
        keyboard_mode: 0,
        confine_to: 200,
        cursor: 0,
        owner_events: false,
        confine_bounds: Some((100, 100, 300, 300)),
    });
    if let Some((x1, y1, x2, y2)) = gs.pointer_grab.as_ref().unwrap().confine_bounds {
        let cx = 50i16.max(x1).min(x2.saturating_sub(1));
        let cy = 400i16.max(y1).min(y2.saturating_sub(1));
        assert_eq!((cx, cy), (100, 299));
    }
}

// -----------------------------------------------------------------------
// Passive grab matching
// -----------------------------------------------------------------------

#[test]
fn passive_button_grab_any_button_matches() {
    let mut gs = make_grab_state();
    gs.button_grabs.push(PassiveButtonGrab {
        grab_window: 100,
        button: 0, // AnyButton
        modifiers: 0,
        event_mask: 0x04,
        pointer_mode: 0,
        keyboard_mode: 0,
        confine_to: 0,
        cursor: 0,
        owner_events: false,
    });
    // AnyButton (0) should match any button
    let grab = &gs.button_grabs[0];
    assert!(grab.button == 0 || grab.button == 3);
}

#[test]
fn passive_key_grab_any_modifier_matches() {
    let mut gs = make_grab_state();
    gs.key_grabs.push(PassiveKeyGrab {
        grab_window: 100,
        key: 38,
        modifiers: 0x8000, // AnyModifier
        pointer_mode: 0,
        keyboard_mode: 0,
        owner_events: false,
    });
    let grab = &gs.key_grabs[0];
    assert_eq!(grab.modifiers, 0x8000);
    // AnyModifier matches any modifier state
    assert!(grab.modifiers == 0x8000 || grab.modifiers == 0x04);
}

#[test]
fn grab_button_replaces_same_triple() {
    let mut gs = make_grab_state();
    // First grab
    gs.button_grabs.push(PassiveButtonGrab {
        grab_window: 100,
        button: 1,
        modifiers: 0,
        event_mask: 0x04,
        pointer_mode: 0,
        keyboard_mode: 0,
        confine_to: 0,
        cursor: 0,
        owner_events: false,
    });
    // Remove existing + insert new (same triple)
    gs.button_grabs.retain(|g| {
        !(g.grab_window == 100 && g.button == 1 && g.modifiers == 0)
    });
    gs.button_grabs.insert(0, PassiveButtonGrab {
        grab_window: 100,
        button: 1,
        modifiers: 0,
        event_mask: 0x08, // different event_mask
        pointer_mode: 1,
        keyboard_mode: 0,
        confine_to: 0,
        cursor: 0,
        owner_events: true,
    });
    assert_eq!(gs.button_grabs.len(), 1);
    assert_eq!(gs.button_grabs[0].event_mask, 0x08);
    assert!(gs.button_grabs[0].owner_events);
}

#[test]
fn ungrab_button_any_removes_all_on_window() {
    let mut gs = make_grab_state();
    gs.button_grabs.push(PassiveButtonGrab {
        grab_window: 100, button: 1, modifiers: 0,
        event_mask: 0x04, pointer_mode: 0, keyboard_mode: 0,
        confine_to: 0, cursor: 0, owner_events: false,
    });
    gs.button_grabs.push(PassiveButtonGrab {
        grab_window: 100, button: 2, modifiers: 0,
        event_mask: 0x04, pointer_mode: 0, keyboard_mode: 0,
        confine_to: 0, cursor: 0, owner_events: false,
    });
    gs.button_grabs.push(PassiveButtonGrab {
        grab_window: 200, button: 1, modifiers: 0,
        event_mask: 0x04, pointer_mode: 0, keyboard_mode: 0,
        confine_to: 0, cursor: 0, owner_events: false,
    });
    // AnyButton + AnyModifier removes all on window 100
    gs.button_grabs.retain(|g| g.grab_window != 100);
    assert_eq!(gs.button_grabs.len(), 1);
    assert_eq!(gs.button_grabs[0].grab_window, 200);
}

// -----------------------------------------------------------------------
// Frozen event capacity limit
// -----------------------------------------------------------------------

#[test]
fn frozen_events_bounded() {
    let mut gs = make_grab_state();
    gs.pointer_frozen = true;
    for _ in 0..MAX_FROZEN_EVENTS + 10 {
        if gs.frozen_pointer_events.len() >= MAX_FROZEN_EVENTS {
            gs.frozen_pointer_events.remove(0);
        }
        gs.frozen_pointer_events.push(vec![0u8; 32]);
    }
    assert_eq!(gs.frozen_pointer_events.len(), MAX_FROZEN_EVENTS);
}

// -----------------------------------------------------------------------
// Server grab count
// -----------------------------------------------------------------------

#[test]
fn server_grab_nesting() {
    let mut gs = make_grab_state();
    gs.server_grab_count += 1;
    gs.server_grab_count += 1;
    assert_eq!(gs.server_grab_count, 2);
    gs.server_grab_count -= 1;
    assert_eq!(gs.server_grab_count, 1);
    gs.server_grab_count -= 1;
    assert_eq!(gs.server_grab_count, 0);
}

// -----------------------------------------------------------------------
// Passive grab data structures
// -----------------------------------------------------------------------

#[test]
fn passive_button_grab_stores_all_fields() {
    let grab = PassiveButtonGrab {
        grab_window: 0x100,
        button: 1,
        modifiers: 0x8000, // AnyModifier
        event_mask: 0x04,
        pointer_mode: 1, // Async
        keyboard_mode: 1, // Async
        confine_to: 0,
        cursor: 0,
        owner_events: true,
    };
    assert_eq!(grab.grab_window, 0x100);
    assert_eq!(grab.button, 1);
    assert_eq!(grab.modifiers, 0x8000);
    assert!(grab.owner_events);
}

#[test]
fn passive_key_grab_stores_all_fields() {
    let grab = PassiveKeyGrab {
        grab_window: 0x200,
        key: 0, // AnyKey
        modifiers: 0x01, // Shift
        pointer_mode: 0, // Sync
        keyboard_mode: 1, // Async
        owner_events: false,
    };
    assert_eq!(grab.grab_window, 0x200);
    assert_eq!(grab.key, 0);
    assert_eq!(grab.modifiers, 0x01);
    assert!(!grab.owner_events);
}

#[test]
fn grab_button_lifo_ordering() {
    let mut gs = make_grab_state();
    // Insert two button grabs with different modifiers
    gs.button_grabs.insert(0, PassiveButtonGrab {
        grab_window: 0x100,
        button: 1,
        modifiers: 0,
        event_mask: 0x04,
        pointer_mode: 1,
        keyboard_mode: 1,
        confine_to: 0,
        cursor: 0,
        owner_events: false,
    });
    gs.button_grabs.insert(0, PassiveButtonGrab {
        grab_window: 0x100,
        button: 1,
        modifiers: 0x01, // Shift
        event_mask: 0x04,
        pointer_mode: 1,
        keyboard_mode: 1,
        confine_to: 0,
        cursor: 0,
        owner_events: false,
    });
    // LIFO: most recently inserted should be at front
    assert_eq!(gs.button_grabs[0].modifiers, 0x01);
    assert_eq!(gs.button_grabs[1].modifiers, 0);
}
