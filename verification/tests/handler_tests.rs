use sapphire_wm::client::{ClientState, ClientType, Paddings, WindowAttributes};
use sapphire_wm::config::{Config, ConfigBorder};
use sapphire_wm::event::{AtomTable, ClientMessage, Event, MouseEvent};
use sapphire_wm::handlers::{
    on_client_message, on_configure_request, on_destroy_notify, on_map_request,
    ConfigureRequestEvent, CONFIG_WINDOW_HEIGHT, CONFIG_WINDOW_WIDTH, CONFIG_WINDOW_X,
    CONFIG_WINDOW_Y,
};
use sapphire_wm::keyboard::{KeyCombination, Keybinding, Keyboard};
use sapphire_wm::mouse::MouseInfo;
use sapphire_wm::requests::XRequest;
use sapphire_wm::screen::{Screen, STICKY_TAG_ID};
use sapphire_wm::util::{Operation, MODKEY_CONTROL, MODKEY_SHIFT};

fn test_config() -> Config {
    Config {
        useless_gap: 6,
        border: ConfigBorder { width: 2, color_active: 0xff9933, color_normal: 0x8813d2 },
        tags: vec![String::from("one"), String::from("two")],
    }
}

fn test_atoms() -> AtomTable {
    AtomTable {
        current_desktop: 1000,
        wm_state: 1001,
        wm_state_fullscreen: 1002,
        wm_delete_window: 1003,
    }
}

fn test_screen(out: &mut Vec<XRequest>) -> Screen {
    Screen::new(test_config(), 0, 99, 800, 600, out)
}

fn normal_attrs() -> WindowAttributes {
    let mut attrs = WindowAttributes::empty();
    attrs.types = vec![ClientType::Normal];
    attrs
}

fn dock_attrs(top: u32) -> WindowAttributes {
    let mut attrs = WindowAttributes::empty();
    attrs.types = vec![ClientType::Dock];
    attrs.strut = Paddings { top, bottom: 0, left: 0, right: 0 };
    attrs
}

fn contains_unmap(out: &[XRequest], window: u32) -> bool {
    out.iter().any(|r| matches!(r, XRequest::UnmapWindow(w) if *w == window))
}

fn contains_map(out: &[XRequest], window: u32) -> bool {
    out.iter().any(|r| matches!(r, XRequest::MapWindow(w) if *w == window))
}

fn last_client_list(out: &[XRequest]) -> Vec<u32> {
    for r in out.iter().rev() {
        if let XRequest::SetClientList(ids) = r {
            return ids.clone();
        }
    }
    panic!("no client list was advertised");
}

#[test]
fn single_map_request_manages_and_focuses() {
    let mut out: Vec<XRequest> = Vec::new();
    let mut s = test_screen(&mut out);
    out.clear();
    assert!(on_map_request(&mut s, 100, normal_attrs(), &mut out).is_ok());
    assert_eq!(s.tags[0].clients.len(), 1);
    assert_eq!(s.tags[0].clients[0].id, 100);
    assert!(s.tags[0].clients[0].is_controlled());
    assert_eq!(s.tags[0].focused_cid, 100);
    assert_eq!(last_client_list(&out), vec![100]);
    assert!(out.iter().any(|r| matches!(
        r,
        XRequest::SetWindowDesktop { window: 100, desktop: 0 }
    )));
}

#[test]
fn mapping_an_already_managed_window_only_maps() {
    let mut out: Vec<XRequest> = Vec::new();
    let mut s = test_screen(&mut out);
    assert!(on_map_request(&mut s, 100, normal_attrs(), &mut out).is_ok());
    out.clear();
    assert!(on_map_request(&mut s, 100, normal_attrs(), &mut out).is_ok());
    assert_eq!(out.len(), 1);
    assert!(matches!(out[0], XRequest::MapWindow(100)));
    assert_eq!(s.tags[0].clients.len(), 1);
}

#[test]
fn dock_routes_to_the_sticky_tag() {
    let mut out: Vec<XRequest> = Vec::new();
    let mut s = test_screen(&mut out);
    out.clear();
    assert!(on_map_request(&mut s, 200, dock_attrs(30), &mut out).is_ok());
    let sticky = s.tags.len() - 1;
    assert!(s.tags[sticky].contains_client(200));
    assert_eq!(s.tags[0].clients.len(), 0);
    assert_eq!(s.tags[sticky].focused_cid, 0);
    assert!(out.iter().any(|r| matches!(
        r,
        XRequest::SetWindowDesktop { window: 200, desktop: STICKY_TAG_ID }
    )));

    // Arranging the focused tag folds the dock's strut in: one tile now
    // gets the height below the 30-pixel reservation.
    assert!(on_map_request(&mut s, 100, normal_attrs(), &mut out).is_ok());
    out.clear();
    assert!(s.arrange_tag(0, &mut out).is_ok());
    assert!(matches!(
        out[0],
        XRequest::Configure { window: 100, x: 6, y: 36, width: 784, height: 554, border: 2 }
    ));
}

#[test]
fn fullscreen_toggle_round_trip() {
    let atoms = test_atoms();
    let mut out: Vec<XRequest> = Vec::new();
    let mut s = test_screen(&mut out);
    assert!(on_map_request(&mut s, 100, normal_attrs(), &mut out).is_ok());
    out.clear();

    // Toggle on: the client goes fullscreen over the whole screen.
    assert!(on_client_message(&mut s, 100, atoms.wm_state, 2, atoms.wm_state_fullscreen, &atoms, &mut out).is_ok());
    assert_eq!(s.tags[0].clients[0].states, vec![ClientState::Fullscreen]);
    assert!(out.iter().any(|r| matches!(
        r,
        XRequest::Configure { window: 100, x: 0, y: 0, width: 800, height: 600, border: 0 }
    )));
    out.clear();

    // Toggle off: back to the tile layout.
    assert!(on_client_message(&mut s, 100, atoms.wm_state, 2, atoms.wm_state_fullscreen, &atoms, &mut out).is_ok());
    assert_eq!(s.tags[0].clients[0].states, Vec::<ClientState>::new());
    assert!(out.iter().any(|r| matches!(
        r,
        XRequest::Configure { window: 100, x: 6, y: 6, width: 784, height: 584, border: 2 }
    )));
}

#[test]
fn view_desktop_message_switches_tags() {
    let atoms = test_atoms();
    let mut out: Vec<XRequest> = Vec::new();
    let mut s = test_screen(&mut out);
    assert!(on_client_message(&mut s, 99, atoms.current_desktop, 1, 0, &atoms, &mut out).is_ok());
    assert_eq!(s.focused_tag_id, 1);
}

#[test]
fn unsupported_message_is_ignored() {
    let atoms = test_atoms();
    let mut out: Vec<XRequest> = Vec::new();
    let mut s = test_screen(&mut out);
    out.clear();
    assert!(on_client_message(&mut s, 99, 4242, 1, 0, &atoms, &mut out).is_ok());
    assert_eq!(out.len(), 0);
    assert_eq!(s.focused_tag_id, 0);
}

#[test]
fn view_tag_with_sticky_keeps_the_dock_mapped() {
    let mut out: Vec<XRequest> = Vec::new();
    let mut s = test_screen(&mut out);
    assert!(on_map_request(&mut s, 200, dock_attrs(30), &mut out).is_ok());
    assert!(on_map_request(&mut s, 300, normal_attrs(), &mut out).is_ok());
    assert!(s.view_tag(1, &mut out).is_ok());
    assert!(on_map_request(&mut s, 301, normal_attrs(), &mut out).is_ok());
    assert!(s.view_tag(0, &mut out).is_ok());
    out.clear();

    assert!(s.view_tag(1, &mut out).is_ok());
    assert!(contains_unmap(&out, 300));
    assert!(contains_map(&out, 301));
    assert!(!contains_unmap(&out, 200));
    assert!(out.iter().any(|r| matches!(r, XRequest::SetCurrentDesktop(1))));
    assert_eq!(s.focused_tag_id, 1);
}

#[test]
fn destroy_cascade_clears_the_focus() {
    let mut out: Vec<XRequest> = Vec::new();
    let mut s = test_screen(&mut out);
    assert!(on_map_request(&mut s, 200, dock_attrs(30), &mut out).is_ok());
    assert!(on_map_request(&mut s, 300, normal_attrs(), &mut out).is_ok());
    assert!(s.view_tag(1, &mut out).is_ok());
    assert!(on_map_request(&mut s, 301, normal_attrs(), &mut out).is_ok());
    out.clear();

    assert!(on_destroy_notify(&mut s, 301, &mut out).is_ok());
    assert!(!s.tags[1].contains_client(301));
    assert_eq!(s.tags[1].focused_cid, 0);
    assert!(out.iter().any(|r| matches!(r, XRequest::DisableInputFocus)));
    let list = last_client_list(&out);
    assert!(!list.contains(&301));
    assert!(list.contains(&300));
    assert!(list.contains(&200));
}

#[test]
fn destroying_an_unknown_window_is_a_no_op() {
    let mut out: Vec<XRequest> = Vec::new();
    let mut s = test_screen(&mut out);
    out.clear();
    assert!(on_destroy_notify(&mut s, 4444, &mut out).is_ok());
    assert_eq!(out.len(), 0);
}

#[test]
fn destroying_an_unfocused_client_keeps_the_focus() {
    let mut out: Vec<XRequest> = Vec::new();
    let mut s = test_screen(&mut out);
    assert!(on_map_request(&mut s, 101, normal_attrs(), &mut out).is_ok());
    assert!(on_map_request(&mut s, 102, normal_attrs(), &mut out).is_ok());
    out.clear();
    assert!(on_destroy_notify(&mut s, 101, &mut out).is_ok());
    assert_eq!(s.tags[0].focused_cid, 102);
    assert!(!s.tags[0].contains_client(101));
}

#[test]
fn configure_request_passes_masked_fields_through() {
    let mut out: Vec<XRequest> = Vec::new();
    let s = test_screen(&mut out);
    out.clear();
    let ev = ConfigureRequestEvent {
        window: 55,
        x: -8,
        y: 12,
        width: 640,
        height: 480,
        border_width: 1,
        sibling: 0,
        stack_mode: 0,
        value_mask: CONFIG_WINDOW_WIDTH | CONFIG_WINDOW_HEIGHT | CONFIG_WINDOW_X
            | CONFIG_WINDOW_Y,
    };
    assert!(on_configure_request(&s, &ev, false, 0, 0, &mut out).is_ok());
    assert_eq!(out.len(), 1);
    match &out[0] {
        XRequest::ConfigureMasked { window, values } => {
            assert_eq!(*window, 55);
            assert_eq!(
                *values,
                vec![
                    (CONFIG_WINDOW_WIDTH, 640),
                    (CONFIG_WINDOW_HEIGHT, 480),
                    (CONFIG_WINDOW_X, (-8i32) as u32),
                    (CONFIG_WINDOW_Y, 12),
                ]
            );
        },
        _ => panic!("expected a masked configure request"),
    }
}

#[test]
fn configure_request_centers_dialogs() {
    let mut out: Vec<XRequest> = Vec::new();
    let s = test_screen(&mut out);
    out.clear();
    let ev = ConfigureRequestEvent {
        window: 56,
        x: 5,
        y: 5,
        width: 0,
        height: 0,
        border_width: 0,
        sibling: 0,
        stack_mode: 0,
        value_mask: CONFIG_WINDOW_X | CONFIG_WINDOW_Y,
    };
    assert!(on_configure_request(&s, &ev, true, 400, 200, &mut out).is_ok());
    match &out[0] {
        XRequest::ConfigureMasked { values, .. } => {
            assert_eq!(*values, vec![(CONFIG_WINDOW_X, 200), (CONFIG_WINDOW_Y, 200)]);
        },
        _ => panic!("expected a masked configure request"),
    }
}

#[test]
fn event_codes_classify() {
    assert_eq!(Event::from_code(20), Event::MapRequest);
    assert_eq!(Event::from_code(17), Event::DestroyNotify);
    assert_eq!(Event::from_code(23), Event::ConfigureRequest);
    assert_eq!(Event::from_code(33), Event::ClientMessage);
    assert_eq!(Event::from_code(2), Event::KeyPress);
    assert_eq!(Event::from_code(4), Event::ButtonPress);
    // The sent-by-client bit is ignored.
    assert_eq!(Event::from_code(0x80 | 33), Event::ClientMessage);
    assert_eq!(Event::from_code(0), Event::Invalid);
    assert_eq!(Event::from_code(127), Event::Invalid);
}

#[test]
fn client_messages_classify_by_atom() {
    let atoms = test_atoms();
    assert_eq!(ClientMessage::from_atom(&atoms, 1000), ClientMessage::ViewDesktop);
    assert_eq!(ClientMessage::from_atom(&atoms, 1001), ClientMessage::ChangeState);
    assert_eq!(ClientMessage::from_atom(&atoms, 7), ClientMessage::NotSupported);
    let _ = MouseEvent::Click;
}

#[test]
fn operations_decode_the_ewmh_action() {
    assert_eq!(Operation::from_u32(0), Operation::Remove);
    assert_eq!(Operation::from_u32(1), Operation::Add);
    assert_eq!(Operation::from_u32(2), Operation::Toggle);
    assert_eq!(Operation::from_u32(3), Operation::Unknown);
}

#[test]
fn keyboard_binds_and_triggers() {
    let mut kb = Keyboard::new();
    let a = KeyCombination { keycode: 38, modifier: MODKEY_SHIFT };
    let b = KeyCombination { keycode: 39, modifier: MODKEY_SHIFT };
    kb.bind(a, 0);
    kb.bind(b, 1);
    assert_eq!(kb.trigger(a), Some(0));
    assert_eq!(kb.trigger(b), Some(1));
    assert_eq!(kb.trigger(KeyCombination { keycode: 40, modifier: 0 }), None);
    // Rebinding replaces the action.
    kb.bind(a, 7);
    assert_eq!(kb.trigger(a), Some(7));
    assert_eq!(kb.bindings.len(), 2);
}

#[test]
fn keybinding_builder_collects_the_parts() {
    let kb = Keybinding::new()
        .on(&[MODKEY_SHIFT, MODKEY_CONTROL], "Return")
        .description("Swap the master")
        .group("layout")
        .build();
    assert_eq!(kb.modkeys, MODKEY_SHIFT | MODKEY_CONTROL);
    assert_eq!(kb.key, "Return");
    assert_eq!(kb.description, "Swap the master");
    assert_eq!(kb.group, "layout");
}

#[test]
fn mouse_info_packs_the_press() {
    let info = MouseInfo::new(42, MODKEY_SHIFT, (10, -3));
    assert_eq!(info.c_id, 42);
    assert_eq!(info.modifier, MODKEY_SHIFT);
    assert_eq!(info.x, 10);
    assert_eq!(info.y, -3);
}

#[test]
fn map_request_without_a_focused_tag_fails() {
    let mut out: Vec<XRequest> = Vec::new();
    let mut s = test_screen(&mut out);
    s.focused_tag_id = 9;
    let r = on_map_request(&mut s, 100, normal_attrs(), &mut out);
    assert!(matches!(
        r,
        Err(sapphire_wm::errors::Error::TagNotFound(9))
    ));
}
