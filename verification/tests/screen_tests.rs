use sapphire_wm::client::{Client, ClientType, WindowAttributes};
use sapphire_wm::config::{Config, ConfigBorder};
use sapphire_wm::errors::Error;
use sapphire_wm::requests::XRequest;
use sapphire_wm::screen::{Screen, ScreenGeometry, STICKY_TAG_ID};

fn test_config() -> Config {
    Config {
        useless_gap: 6,
        border: ConfigBorder { width: 2, color_active: 0xff9933, color_normal: 0x8813d2 },
        tags: vec![String::from("one"), String::from("two")],
    }
}

fn test_screen(out: &mut Vec<XRequest>) -> Screen {
    Screen::new(test_config(), 0, 99, 800, 600, out)
}

fn client(id: u32) -> Client {
    let mut attrs = WindowAttributes::empty();
    attrs.types = vec![ClientType::Normal];
    let mut scratch: Vec<XRequest> = Vec::new();
    Client::new(id, attrs, &mut scratch)
}

#[test]
fn new_screen_builds_tags_and_advertises_them() {
    let mut out: Vec<XRequest> = Vec::new();
    let s = test_screen(&mut out);
    assert_eq!(s.geo, ScreenGeometry { width: 800, height: 600 });
    assert_eq!(s.root, 99);
    assert_eq!(s.focused_tag_id, 0);
    assert_eq!(s.tags.len(), 3);
    assert_eq!(s.tags[0].id, 0);
    assert_eq!(s.tags[0].alias, "one");
    assert_eq!(s.tags[1].id, 1);
    assert_eq!(s.tags[2].id, STICKY_TAG_ID);
    assert_eq!(s.tags[2].alias, "sticky_clients");
    assert!(matches!(out[0], XRequest::SetNumberOfDesktops(2)));
    assert!(matches!(&out[1], XRequest::SetDesktopNames(names) if names.len() == 2));
}

#[test]
fn new_screen_without_aliases_gets_one_tag() {
    let mut out: Vec<XRequest> = Vec::new();
    let mut cfg = test_config();
    cfg.tags = Vec::new();
    let s = Screen::new(cfg, 0, 99, 800, 600, &mut out);
    assert_eq!(s.tags.len(), 2);
    assert_eq!(s.tags[0].alias, "1");
}

#[test]
fn tag_lookups() {
    let mut out: Vec<XRequest> = Vec::new();
    let s = test_screen(&mut out);
    assert!(s.contains_tag(0));
    assert!(s.contains_tag(STICKY_TAG_ID));
    assert!(!s.contains_tag(5));
    assert_eq!(s.sticky_tag().id, STICKY_TAG_ID);
    assert_eq!(s.get_tag(1).unwrap().id, 1);
    assert!(matches!(s.get_tag(5), Err(Error::TagNotFound(5))));
    assert_eq!(s.get_focused_tag().unwrap().id, 0);
}

#[test]
fn view_tag_switches_and_advertises() {
    let mut out: Vec<XRequest> = Vec::new();
    let mut s = test_screen(&mut out);
    out.clear();
    assert!(s.view_tag(1, &mut out).is_ok());
    assert_eq!(s.focused_tag_id, 1);
    assert!(matches!(out.last(), Some(XRequest::SetCurrentDesktop(1))));
}

#[test]
fn viewing_the_same_tag_twice_changes_nothing_after_the_first() {
    let mut out: Vec<XRequest> = Vec::new();
    let mut s = test_screen(&mut out);
    assert!(s.view_tag(1, &mut out).is_ok());
    assert_eq!(s.focused_tag_id, 1);
    let requests_before = out.len();
    let focused_before = s.focused_tag_id;
    assert!(s.view_tag(1, &mut out).is_ok());
    assert_eq!(out.len(), requests_before);
    assert_eq!(s.focused_tag_id, focused_before);
}

#[test]
fn view_tag_rejects_the_sticky_tag_and_unknown_tags() {
    let mut out: Vec<XRequest> = Vec::new();
    let mut s = test_screen(&mut out);
    assert!(matches!(s.view_tag(STICKY_TAG_ID, &mut out), Err(Error::TagNotFound(_))));
    assert!(matches!(s.view_tag(9, &mut out), Err(Error::TagNotFound(9))));
    assert_eq!(s.focused_tag_id, 0);
}

#[test]
fn moving_there_and_back_restores_both_focuses() {
    let cfg = test_config();
    let mut out: Vec<XRequest> = Vec::new();
    let mut s = test_screen(&mut out);
    // Tag 0 holds 10 (focused); tag 1 holds 20 (focused, and first
    // controlled).
    s.tags[0].manage_client(client(10));
    s.tags[0].focus_client(10, &cfg, &mut out);
    s.tags[1].manage_client(client(20));
    s.tags[1].focus_client(20, &cfg, &mut out);
    assert!(s.move_focused_client(0, 1, &mut out).is_ok());
    assert_eq!(s.tags[1].focused_cid, 10);
    assert!(s.tags[1].contains_client(10));
    assert!(!s.tags[0].contains_client(10));
    assert!(s.move_focused_client(1, 0, &mut out).is_ok());
    assert_eq!(s.tags[0].focused_cid, 10);
    assert_eq!(s.tags[1].focused_cid, 20);
    assert!(!s.tags[1].contains_client(10));
}

#[test]
fn moving_from_an_unknown_tag_fails() {
    let cfg = test_config();
    let mut out: Vec<XRequest> = Vec::new();
    let mut s = test_screen(&mut out);
    s.tags[0].manage_client(client(10));
    s.tags[0].focus_client(10, &cfg, &mut out);
    assert!(matches!(s.move_focused_client(7, 0, &mut out), Err(Error::TagNotFound(7))));
    assert!(matches!(s.move_focused_client(0, 7, &mut out), Err(Error::TagNotFound(7))));
}

#[test]
fn refresh_lists_every_client() {
    let mut out: Vec<XRequest> = Vec::new();
    let mut s = test_screen(&mut out);
    s.tags[0].manage_client(client(2));
    s.tags[0].manage_client(client(1));
    s.tags[1].manage_client(client(3));
    out.clear();
    s.refresh(&mut out);
    assert_eq!(out.len(), 1);
    assert!(matches!(&out[0], XRequest::SetClientList(ids) if *ids == vec![1, 2, 3]));
}

#[test]
fn arrange_tag_reports_a_missing_tag() {
    let mut out: Vec<XRequest> = Vec::new();
    let mut s = test_screen(&mut out);
    assert!(matches!(s.arrange_tag(9, &mut out), Err(Error::TagNotFound(9))));
    assert!(s.arrange_tag(0, &mut out).is_ok());
}
