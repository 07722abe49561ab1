use sapphire_wm::client::{Client, ClientState, ClientType, Paddings, WindowAttributes};
use sapphire_wm::config::{Config, ConfigBorder};
use sapphire_wm::errors::Error;
use sapphire_wm::layout::LayoutTile;
use sapphire_wm::requests::XRequest;
use sapphire_wm::tag::{Tag, TagErr, TagGeometry};
use sapphire_wm::util::cycle_idx;

fn test_config() -> Config {
    Config {
        useless_gap: 6,
        border: ConfigBorder { width: 2, color_active: 0xff9933, color_normal: 0x8813d2 },
        tags: Vec::new(),
    }
}

fn client(id: u32) -> Client {
    let mut attrs = WindowAttributes::empty();
    attrs.types = vec![ClientType::Normal];
    let mut scratch: Vec<XRequest> = Vec::new();
    Client::new(id, attrs, &mut scratch)
}

fn client_with_strut(id: u32, top: u32, bottom: u32, left: u32, right: u32) -> Client {
    let mut attrs = WindowAttributes::empty();
    attrs.types = vec![ClientType::Normal];
    attrs.strut = Paddings { top, bottom, left, right };
    let mut scratch: Vec<XRequest> = Vec::new();
    Client::new(id, attrs, &mut scratch)
}

#[test]
fn tag_geometry_getters() {
    let g = TagGeometry::new(800, 600, Paddings { top: 30, bottom: 10, left: 5, right: 15 });
    assert_eq!(g.padding_top(), 30);
    assert_eq!(g.padding_bottom(), 10);
    assert_eq!(g.padding_left(), 5);
    assert_eq!(g.padding_right(), 15);
    assert_eq!(g.avail_w, 780);
    assert_eq!(g.avail_h, 560);
}

#[test]
fn aggregated_padding_is_the_pointwise_maximum() {
    let mut t = Tag::new(0, String::from("one"), 800, 600);
    t.manage_client(client_with_strut(1, 10, 0, 5, 0));
    t.manage_client(client_with_strut(2, 3, 20, 0, 7));
    assert_eq!(t.geo.paddings, Paddings { top: 10, bottom: 20, left: 5, right: 7 });
    assert_eq!(t.geo.avail_h, 600 - 10 - 20);
    t.unmanage_client(1);
    assert_eq!(t.geo.paddings, Paddings { top: 3, bottom: 20, left: 0, right: 7 });
    t.unmanage_client(2);
    assert_eq!(t.geo.paddings, Paddings { top: 0, bottom: 0, left: 0, right: 0 });
}

#[test]
fn client_ids_stay_unique_within_a_tag() {
    let mut t = Tag::new(0, String::from("one"), 800, 600);
    t.manage_client(client(1));
    t.manage_client(client(2));
    assert!(t.contains_client(1));
    assert!(t.contains_client(2));
    let mut seen: Vec<u32> = Vec::new();
    for c in t.clients.iter() {
        assert!(!seen.contains(&c.id));
        seen.push(c.id);
    }
}

#[test]
fn focused_is_zero_or_present() {
    let cfg = test_config();
    let mut out: Vec<XRequest> = Vec::new();
    let mut t = Tag::new(0, String::from("one"), 800, 600);
    assert_eq!(t.focused_cid, 0);
    t.manage_client(client(7));
    assert_eq!(t.focus_client(7, &cfg, &mut out), Some(true));
    assert_eq!(t.focused_cid, 7);
    t.unmanage_client(7);
    assert_eq!(t.focused_cid, 0);
}

#[test]
fn focus_emits_borders_and_input_focus() {
    let cfg = test_config();
    let mut out: Vec<XRequest> = Vec::new();
    let mut t = Tag::new(0, String::from("one"), 800, 600);
    t.manage_client(client(1));
    t.manage_client(client(2));
    assert_eq!(t.focus_client(1, &cfg, &mut out), Some(true));
    out.clear();
    assert_eq!(t.focus_client(2, &cfg, &mut out), Some(true));
    assert_eq!(out.len(), 3);
    assert!(matches!(out[0], XRequest::SetBorderColor { window: 1, color: 0x8813d2 }));
    assert!(matches!(out[1], XRequest::SetInputFocus(2)));
    assert!(matches!(out[2], XRequest::SetBorderColor { window: 2, color: 0xff9933 }));
    assert_eq!(t.focus_client(99, &cfg, &mut out), None);
}

#[test]
fn docks_never_take_the_focus() {
    let cfg = test_config();
    let mut out: Vec<XRequest> = Vec::new();
    let mut t = Tag::new(0, String::from("one"), 800, 600);
    let mut attrs = WindowAttributes::empty();
    attrs.types = vec![ClientType::Dock];
    let mut scratch: Vec<XRequest> = Vec::new();
    t.manage_client(Client::new(5, attrs, &mut scratch));
    assert_eq!(t.focus_client_if_controlled(5, &cfg, &mut out), Some(false));
    assert_eq!(t.focused_cid, 0);
}

#[test]
fn focus_wraps_left_from_the_master() {
    // Three tileable clients, the master focused; walking one left wraps
    // to the bottom of the stack.
    let cfg = test_config();
    let mut out: Vec<XRequest> = Vec::new();
    let mut t = Tag::new(0, String::from("one"), 800, 600);
    t.manage_client(client(103));
    t.manage_client(client(102));
    t.manage_client(client(101));
    assert_eq!(t.focus_client(101, &cfg, &mut out), Some(true));
    assert!(t.focus_client_byidx(-1, None, &cfg, &mut out).is_ok());
    assert_eq!(t.focused_cid, 103);
}

#[test]
fn focus_by_zero_is_a_no_op() {
    let cfg = test_config();
    let mut out: Vec<XRequest> = Vec::new();
    let mut t = Tag::new(0, String::from("one"), 800, 600);
    t.manage_client(client(2));
    t.manage_client(client(1));
    assert_eq!(t.focus_client(2, &cfg, &mut out), Some(true));
    assert!(t.focus_client_byidx(0, None, &cfg, &mut out).is_ok());
    assert_eq!(t.focused_cid, 2);
}

#[test]
fn focus_walk_there_and_back_restores() {
    let cfg = test_config();
    let mut out: Vec<XRequest> = Vec::new();
    let mut t = Tag::new(0, String::from("one"), 800, 600);
    t.manage_client(client(3));
    t.manage_client(client(2));
    t.manage_client(client(1));
    assert_eq!(t.focus_client(2, &cfg, &mut out), Some(true));
    assert!(t.focus_client_byidx(2, None, &cfg, &mut out).is_ok());
    assert!(t.focus_client_byidx(-2, None, &cfg, &mut out).is_ok());
    assert_eq!(t.focused_cid, 2);
}

#[test]
fn focus_walk_skips_hidden_clients() {
    let cfg = test_config();
    let mut out: Vec<XRequest> = Vec::new();
    let mut t = Tag::new(0, String::from("one"), 800, 600);
    let mut hidden = client(2);
    hidden.add_state(ClientState::Hidden, &mut out);
    t.manage_client(client(3));
    t.manage_client(hidden);
    t.manage_client(client(1));
    assert_eq!(t.focus_client(1, &cfg, &mut out), Some(true));
    assert!(t.focus_client_byidx(1, None, &cfg, &mut out).is_ok());
    assert_eq!(t.focused_cid, 3);
}

#[test]
fn focus_walk_fails_without_visible_clients() {
    let cfg = test_config();
    let mut out: Vec<XRequest> = Vec::new();
    let mut t = Tag::new(0, String::from("one"), 800, 600);
    let r = t.focus_client_byidx(1, None, &cfg, &mut out);
    assert!(matches!(r, Err(Error::ClientNotFound(0))));
}

#[test]
fn swap_exchanges_positions() {
    let mut t = Tag::new(0, String::from("one"), 800, 600);
    t.manage_client(client(3));
    t.manage_client(client(2));
    t.manage_client(client(1));
    assert_eq!(t.swap(1, 3), Some(()));
    assert_eq!(t.clients[0].id, 3);
    assert_eq!(t.clients[2].id, 1);
    assert_eq!(t.swap(1, 99), None);
}

#[test]
fn map_and_unmap_skip_hidden_clients() {
    let mut scratch: Vec<XRequest> = Vec::new();
    let mut t = Tag::new(0, String::from("one"), 800, 600);
    let mut hidden = client(2);
    hidden.add_state(ClientState::Hidden, &mut scratch);
    t.manage_client(hidden);
    t.manage_client(client(1));
    let mut out: Vec<XRequest> = Vec::new();
    t.map(&mut out);
    assert_eq!(out.len(), 1);
    assert!(matches!(out[0], XRequest::MapWindow(1)));
    out.clear();
    t.unmap(&mut out);
    assert_eq!(out.len(), 1);
    assert!(matches!(out[0], XRequest::UnmapWindow(1)));
}

#[test]
fn lone_tile_fills_the_available_area() {
    let cfg = test_config();
    let mut out: Vec<XRequest> = Vec::new();
    let mut t = Tag::new(0, String::from("one"), 800, 600);
    t.manage_client(client(100));
    t.arrange(&LayoutTile::new(), &cfg, Paddings { top: 0, bottom: 0, left: 0, right: 0 }, &mut out);
    assert_eq!(out.len(), 1);
    assert!(matches!(
        out[0],
        XRequest::Configure { window: 100, x: 6, y: 6, width: 784, height: 584, border: 2 }
    ));
}

#[test]
fn two_tiles_split_into_master_and_stack() {
    let cfg = test_config();
    let mut out: Vec<XRequest> = Vec::new();
    let mut t = Tag::new(0, String::from("one"), 800, 600);
    t.manage_client(client(2));
    t.manage_client(client(1));
    t.arrange(&LayoutTile::new(), &cfg, Paddings { top: 0, bottom: 0, left: 0, right: 0 }, &mut out);
    // Master: left half behind gaps; stack of one: right half, full height.
    assert!(matches!(
        out[0],
        XRequest::Configure { window: 1, x: 6, y: 6, width: 384, height: 584, border: 2 }
    ));
    assert!(matches!(
        out[1],
        XRequest::Configure { window: 2, x: 406, y: 6, width: 384, height: 584, border: 2 }
    ));
}

#[test]
fn three_tiles_share_the_stack_column() {
    let cfg = test_config();
    let mut out: Vec<XRequest> = Vec::new();
    let mut t = Tag::new(0, String::from("one"), 800, 600);
    t.manage_client(client(3));
    t.manage_client(client(2));
    t.manage_client(client(1));
    t.arrange(&LayoutTile::new(), &cfg, Paddings { top: 0, bottom: 0, left: 0, right: 0 }, &mut out);
    // Stack slots are 300 high; the upper one leaves border + gap, the
    // bottom-most absorbs both sides.
    assert!(matches!(
        out[0],
        XRequest::Configure { window: 1, x: 6, y: 6, width: 384, height: 584, border: 2 }
    ));
    assert!(matches!(
        out[1],
        XRequest::Configure { window: 2, x: 406, y: 6, width: 384, height: 292, border: 2 }
    ));
    assert!(matches!(
        out[2],
        XRequest::Configure { window: 3, x: 406, y: 306, width: 384, height: 284, border: 2 }
    ));
}

#[test]
fn fullscreen_covers_the_whole_screen() {
    let cfg = test_config();
    let mut out: Vec<XRequest> = Vec::new();
    let mut t = Tag::new(0, String::from("one"), 800, 600);
    let mut c = client(100);
    c.add_state(ClientState::Fullscreen, &mut out);
    t.manage_client(c);
    out.clear();
    t.arrange(&LayoutTile::new(), &cfg, Paddings { top: 0, bottom: 0, left: 0, right: 0 }, &mut out);
    assert!(matches!(
        out[0],
        XRequest::Configure { window: 100, x: 0, y: 0, width: 800, height: 600, border: 0 }
    ));
}

#[test]
fn maximized_respects_the_paddings() {
    let cfg = test_config();
    let mut out: Vec<XRequest> = Vec::new();
    let mut t = Tag::new(0, String::from("one"), 800, 600);
    let mut c = client(100);
    c.add_state(ClientState::Maximized, &mut out);
    t.manage_client(c);
    out.clear();
    t.arrange(&LayoutTile::new(), &cfg, Paddings { top: 30, bottom: 0, left: 10, right: 0 }, &mut out);
    assert!(matches!(
        out[0],
        XRequest::Configure { window: 100, x: 10, y: 30, width: 790, height: 570, border: 0 }
    ));
}

#[test]
fn lookups_report_the_missing_client() {
    let t = Tag::new(0, String::from("one"), 800, 600);
    assert!(matches!(t.get_client(4), Err(Error::ClientNotFound(4))));
    assert!(matches!(t.get_focused_client(), Err(Error::ClientNotFound(0))));
    assert!(matches!(t.get_first_controlled_client(), Err(Error::ClientNotFound(0))));
}

#[test]
fn cycle_idx_walks_the_ring() {
    assert_eq!(cycle_idx(2, 1), Some(1));
    assert_eq!(cycle_idx(2, 2), Some(0));
    assert_eq!(cycle_idx(3, -1), Some(2));
    assert_eq!(cycle_idx(3, -3), Some(0));
    assert_eq!(cycle_idx(3, -4), None);
    assert_eq!(cycle_idx(1, 0), None);
    assert_eq!(cycle_idx(0, 5), None);
}

#[test]
fn tag_error_message() {
    assert_eq!(TagErr::NotFound(3).message(), "Tag[3] not found.");
}
