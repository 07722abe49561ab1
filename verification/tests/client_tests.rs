use sapphire_wm::client::{Client, ClientAction, ClientState, ClientType, Paddings, WindowAttributes};
use sapphire_wm::errors::Error;
use sapphire_wm::requests::XRequest;
use sapphire_wm::util::Operation;

fn normal_attrs() -> WindowAttributes {
    let mut attrs = WindowAttributes::empty();
    attrs.types = vec![ClientType::Normal];
    attrs
}

fn dock_attrs(top: u32) -> WindowAttributes {
    let mut attrs = WindowAttributes::empty();
    attrs.types = vec![ClientType::Dock];
    attrs.strut = Paddings { top, bottom: 0, left: 0, right: 0 };
    attrs
}

#[test]
fn new_normal_client_is_controlled_with_full_actions() {
    let mut out: Vec<XRequest> = Vec::new();
    let c = Client::new(100, normal_attrs(), &mut out);
    assert_eq!(c.id, 100);
    assert!(c.is_controlled());
    assert_eq!(c.states, Vec::<ClientState>::new());
    assert_eq!(
        c.allowed_actions,
        vec![
            ClientAction::Close,
            ClientAction::Maximize,
            ClientAction::Fullscreen,
            ClientAction::ChangeTag,
            ClientAction::Resize,
            ClientAction::Move,
        ]
    );
    assert_eq!(out.len(), 2);
    assert!(matches!(&out[0], XRequest::SetAllowedActions { window: 100, actions } if actions.len() == 1));
    assert!(matches!(&out[1], XRequest::SetAllowedActions { window: 100, actions } if actions.len() == 6));
}

#[test]
fn new_dock_client_is_sticky_and_uncontrolled() {
    let mut out: Vec<XRequest> = Vec::new();
    let c = Client::new(200, dock_attrs(30), &mut out);
    assert!(!c.is_controlled());
    assert_eq!(c.states, vec![ClientState::Sticky]);
    assert_eq!(c.allowed_actions, vec![ClientAction::Close]);
    assert_eq!(c.geo.paddings.top, 30);
    assert!(matches!(
        &out[1],
        XRequest::AppendWmState { window: 200, state: ClientState::Sticky }
    ));
}

#[test]
fn add_state_is_idempotent() {
    let mut out: Vec<XRequest> = Vec::new();
    let mut c = Client::new(1, normal_attrs(), &mut out);
    c.add_state(ClientState::Fullscreen, &mut out);
    let once = c.states.clone();
    c.add_state(ClientState::Fullscreen, &mut out);
    assert_eq!(c.states, once);
    assert_eq!(c.states, vec![ClientState::Fullscreen]);
}

#[test]
fn states_never_hold_duplicates() {
    let mut out: Vec<XRequest> = Vec::new();
    let mut c = Client::new(1, normal_attrs(), &mut out);
    c.add_state(ClientState::Fullscreen, &mut out);
    c.add_state(ClientState::Maximized, &mut out);
    c.add_state(ClientState::Fullscreen, &mut out);
    c.add_state(ClientState::Maximized, &mut out);
    assert_eq!(c.states, vec![ClientState::Fullscreen, ClientState::Maximized]);
}

#[test]
fn tile_is_never_stored() {
    let mut out: Vec<XRequest> = Vec::new();
    let mut c = Client::new(1, normal_attrs(), &mut out);
    c.add_state(ClientState::Tile, &mut out);
    assert_eq!(c.states, Vec::<ClientState>::new());
    assert_eq!(c.last_state(), ClientState::Tile);
}

#[test]
fn toggle_twice_restores_the_state_list() {
    let mut out: Vec<XRequest> = Vec::new();
    let mut c = Client::new(1, normal_attrs(), &mut out);
    c.add_state(ClientState::Maximized, &mut out);
    let before = c.states.clone();
    let r1 = c.set_state(ClientState::Fullscreen, Operation::Toggle, &mut out);
    assert!(r1.is_ok());
    assert_eq!(c.states, vec![ClientState::Maximized, ClientState::Fullscreen]);
    let r2 = c.set_state(ClientState::Fullscreen, Operation::Toggle, &mut out);
    assert!(r2.is_ok());
    assert_eq!(c.states, before);
}

#[test]
fn last_state_wins() {
    let mut out: Vec<XRequest> = Vec::new();
    let mut c = Client::new(1, normal_attrs(), &mut out);
    c.add_state(ClientState::Fullscreen, &mut out);
    c.add_state(ClientState::Maximized, &mut out);
    assert_eq!(c.last_state(), ClientState::Maximized);
    c.remove_state(ClientState::Maximized, &mut out);
    assert_eq!(c.last_state(), ClientState::Fullscreen);
}

#[test]
fn remove_state_rewrites_the_property() {
    let mut out: Vec<XRequest> = Vec::new();
    let mut c = Client::new(1, normal_attrs(), &mut out);
    c.add_state(ClientState::Fullscreen, &mut out);
    c.add_state(ClientState::Sticky, &mut out);
    out.clear();
    c.remove_state(ClientState::Fullscreen, &mut out);
    assert_eq!(out.len(), 1);
    assert!(matches!(
        &out[0],
        XRequest::ReplaceWmState { window: 1, states } if *states == vec![ClientState::Sticky]
    ));
}

#[test]
fn unknown_operation_is_invalid() {
    let mut out: Vec<XRequest> = Vec::new();
    let mut c = Client::new(1, normal_attrs(), &mut out);
    let before = out.len();
    let r = c.set_state(ClientState::Fullscreen, Operation::Unknown, &mut out);
    assert!(matches!(r, Err(Error::InvalidOperation)));
    assert_eq!(out.len(), before);
    assert_eq!(c.states, Vec::<ClientState>::new());
}

#[test]
fn allow_action_deduplicates() {
    let mut out: Vec<XRequest> = Vec::new();
    let mut c = Client::new(1, normal_attrs(), &mut out);
    out.clear();
    c.allow_action(ClientAction::Close, &mut out);
    assert_eq!(out.len(), 0);
    assert_eq!(c.allowed_actions.len(), 6);
    c.allow_actions(vec![ClientAction::Move, ClientAction::Move], &mut out);
    assert_eq!(c.allowed_actions.len(), 6);
}

#[test]
fn kill_prefers_the_polite_protocol() {
    let mut attrs = normal_attrs();
    attrs.protocols = vec![77];
    let mut out: Vec<XRequest> = Vec::new();
    let c = Client::new(9, attrs, &mut out);
    out.clear();
    c.kill(77, &mut out);
    assert!(matches!(out[0], XRequest::SendDeleteWindow(9)));
    out.clear();
    c.kill(78, &mut out);
    assert!(matches!(out[0], XRequest::KillClient(9)));
}

#[test]
fn type_queries_and_setters() {
    let mut out: Vec<XRequest> = Vec::new();
    let mut c = Client::new(1, WindowAttributes::empty(), &mut out);
    assert_eq!(c.preferable_type(), None);
    assert_eq!(c.get_type(), ClientType::Normal);
    c.set_type(ClientType::Dialog);
    assert_eq!(c.preferable_type(), Some(ClientType::Dialog));
    assert!(c.is_controlled());
    c.set_docker();
    assert_eq!(c.get_type(), ClientType::Dock);
    assert!(!c.is_controlled());
    let mut d = Client::new(2, normal_attrs(), &mut out);
    d.remove_controll();
    assert!(!d.is_controlled());
}

#[test]
fn visibility_follows_the_hidden_state() {
    let mut out: Vec<XRequest> = Vec::new();
    let mut c = Client::new(1, normal_attrs(), &mut out);
    assert!(c.is_visible());
    c.add_state(ClientState::Hidden, &mut out);
    assert!(!c.is_visible());
}

#[test]
fn paddings_setter_and_protocols() {
    let mut out: Vec<XRequest> = Vec::new();
    let mut c = Client::new(1, normal_attrs(), &mut out);
    c.set_paddings(1, 2, 3, 4);
    assert_eq!(c.geo.paddings, Paddings { top: 1, bottom: 2, left: 3, right: 4 });
    assert!(!c.has_protocol(5));
}

#[test]
fn error_messages_name_the_failure() {
    assert_eq!(Error::TagNotFound(7).message(), "Tag with ID 7 not found.");
    assert_eq!(Error::ClientNotFound(9).message(), "Client with ID 9 not found.");
    assert_eq!(Error::InvalidOperation.message(), "Invalid operation");
    assert_eq!(Error::Custom(String::from("boom")).message(), "boom");
}
