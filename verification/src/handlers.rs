//! The typed X event handlers: the pipeline that keeps the manager's model
//! and the server consistent under map requests, destroy notifications,
//! configure requests and client messages. Each handler takes the event's
//! plain data, mutates the screen, and emits the requests the server must
//! perform.

use vstd::prelude::*;

use crate::client::{Client, ClientState, ClientType, WindowAttributes};
use crate::errors::Error;
use crate::event::{spec_client_message_from, AtomTable, ClientMessage};
use crate::requests::{is_set_allowed_actions, is_set_client_list, XRequest};
use crate::screen::{all_client_ids, view_tag_ok, view_tag_post, Screen, STICKY_TAG_ID};
use crate::tag::{
    configure_requests, spec_arranged_client, spec_first_controlled_id, spec_has_id,
    spec_max_pads, spec_merged_geometry, spec_tag_geometry, spec_tile_count, spec_tile_index,
    NO_CLIENT,
};
use crate::util::{
    sat_sub, sign_extend_i16, spec_sat_sub, spec_sign_extend_i16, Operation,
};

verus! {

/// The mask bit for the x coordinate in a configure request.
pub const CONFIG_WINDOW_X: u16 = 1;
/// The mask bit for the y coordinate in a configure request.
pub const CONFIG_WINDOW_Y: u16 = 2;
/// The mask bit for the width in a configure request.
pub const CONFIG_WINDOW_WIDTH: u16 = 4;
/// The mask bit for the height in a configure request.
pub const CONFIG_WINDOW_HEIGHT: u16 = 8;
/// The mask bit for the border width in a configure request.
pub const CONFIG_WINDOW_BORDER_WIDTH: u16 = 16;
/// The mask bit for the sibling in a configure request.
pub const CONFIG_WINDOW_SIBLING: u16 = 32;
/// The mask bit for the stacking mode in a configure request.
pub const CONFIG_WINDOW_STACK_MODE: u16 = 64;

/// The plain data of an X configure request.
#[derive(Clone, Copy, PartialEq, Eq, Structural, Debug)]
pub struct ConfigureRequestEvent {
    pub window: u32,
    pub x: i16,
    pub y: i16,
    pub width: u16,
    pub height: u16,
    pub border_width: u16,
    pub sibling: u32,
    pub stack_mode: u8,
    pub value_mask: u16,
}

/// The masked values a configure request passes on: width, height, border,
/// sibling and stacking mode go through untouched; the position does too,
/// except that a dialog is centered on the screen.
pub open spec fn spec_configure_values(
    ev: ConfigureRequestEvent,
    is_dialog: bool,
    screen_w: u32,
    screen_h: u32,
    win_w: u16,
    win_h: u16,
) -> Seq<(u16, u32)> {
    (if ev.value_mask & CONFIG_WINDOW_WIDTH != 0 {
        seq![(CONFIG_WINDOW_WIDTH, ev.width as u32)]
    } else {
        Seq::empty()
    }) + (if ev.value_mask & CONFIG_WINDOW_HEIGHT != 0 {
        seq![(CONFIG_WINDOW_HEIGHT, ev.height as u32)]
    } else {
        Seq::empty()
    }) + (if ev.value_mask & CONFIG_WINDOW_BORDER_WIDTH != 0 {
        seq![(CONFIG_WINDOW_BORDER_WIDTH, ev.border_width as u32)]
    } else {
        Seq::empty()
    }) + (if ev.value_mask & CONFIG_WINDOW_SIBLING != 0 {
        seq![(CONFIG_WINDOW_SIBLING, ev.sibling)]
    } else {
        Seq::empty()
    }) + (if ev.value_mask & CONFIG_WINDOW_STACK_MODE != 0 {
        seq![(CONFIG_WINDOW_STACK_MODE, ev.stack_mode as u32)]
    } else {
        Seq::empty()
    }) + (if ev.value_mask & CONFIG_WINDOW_X != 0 {
        seq![
            (
                CONFIG_WINDOW_X,
                if is_dialog {
                    (spec_sat_sub(screen_w as int, win_w as int) / 2) as u32
                } else {
                    spec_sign_extend_i16(ev.x) as u32
                },
            ),
        ]
    } else {
        Seq::empty()
    }) + (if ev.value_mask & CONFIG_WINDOW_Y != 0 {
        seq![
            (
                CONFIG_WINDOW_Y,
                if is_dialog {
                    (spec_sat_sub(screen_h as int, win_h as int) / 2) as u32
                } else {
                    spec_sign_extend_i16(ev.y) as u32
                },
            ),
        ]
    } else {
        Seq::empty()
    })
}

/// Honors a configure request: passes the masked fields through, centering
/// dialog windows on the screen. `win_w` and `win_h` are the window's
/// current size, used only for the centering.
#[verifier::rlimit(60)]
pub fn on_configure_request(
    screen: &Screen,
    ev: &ConfigureRequestEvent,
    is_dialog: bool,
    win_w: u16,
    win_h: u16,
    out: &mut Vec<XRequest>,
) -> (r: Result<(), Error>)
    ensures
        r is Ok,
        final (out)@.len() == old(out)@.len() + 1,
        final (out)@.take(old(out)@.len() as int) == old(out)@,
        crate::requests::is_configure_masked(
            final (out)@.last(),
            ev.window,
            spec_configure_values(
                *ev,
                is_dialog,
                screen.geo.width,
                screen.geo.height,
                win_w,
                win_h,
            ),
        ),
{
    let ghost e1 = if ev.value_mask & CONFIG_WINDOW_WIDTH != 0 {
        seq![(CONFIG_WINDOW_WIDTH, ev.width as u32)]
    } else {
        Seq::<(u16, u32)>::empty()
    };
    let ghost e2 = e1 + if ev.value_mask & CONFIG_WINDOW_HEIGHT != 0 {
        seq![(CONFIG_WINDOW_HEIGHT, ev.height as u32)]
    } else {
        Seq::<(u16, u32)>::empty()
    };
    let ghost e3 = e2 + if ev.value_mask & CONFIG_WINDOW_BORDER_WIDTH != 0 {
        seq![(CONFIG_WINDOW_BORDER_WIDTH, ev.border_width as u32)]
    } else {
        Seq::<(u16, u32)>::empty()
    };
    let ghost e4 = e3 + if ev.value_mask & CONFIG_WINDOW_SIBLING != 0 {
        seq![(CONFIG_WINDOW_SIBLING, ev.sibling)]
    } else {
        Seq::<(u16, u32)>::empty()
    };
    let ghost e5 = e4 + if ev.value_mask & CONFIG_WINDOW_STACK_MODE != 0 {
        seq![(CONFIG_WINDOW_STACK_MODE, ev.stack_mode as u32)]
    } else {
        Seq::<(u16, u32)>::empty()
    };
    let mut values: Vec<(u16, u32)> = Vec::new();
    if ev.value_mask & CONFIG_WINDOW_WIDTH != 0 {
        values.push((CONFIG_WINDOW_WIDTH, ev.width as u32));
    }
    proof {
        assert(values@ =~= e1);
    }
    if ev.value_mask & CONFIG_WINDOW_HEIGHT != 0 {
        values.push((CONFIG_WINDOW_HEIGHT, ev.height as u32));
    }
    proof {
        assert(values@ =~= e2);
    }
    if ev.value_mask & CONFIG_WINDOW_BORDER_WIDTH != 0 {
        values.push((CONFIG_WINDOW_BORDER_WIDTH, ev.border_width as u32));
    }
    proof {
        assert(values@ =~= e3);
    }
    if ev.value_mask & CONFIG_WINDOW_SIBLING != 0 {
        values.push((CONFIG_WINDOW_SIBLING, ev.sibling));
    }
    proof {
        assert(values@ =~= e4);
    }
    if ev.value_mask & CONFIG_WINDOW_STACK_MODE != 0 {
        values.push((CONFIG_WINDOW_STACK_MODE, ev.stack_mode as u32));
    }
    proof {
        assert(values@ =~= e5);
    }
    if ev.value_mask & CONFIG_WINDOW_X != 0 {
        let x: u32 = if is_dialog {
            sat_sub(screen.geo.width, win_w as u64) / 2
        } else {
            sign_extend_i16(ev.x)
        };
        values.push((CONFIG_WINDOW_X, x));
    }
    let ghost e6 = e5 + if ev.value_mask & CONFIG_WINDOW_X != 0 {
        seq![
            (
                CONFIG_WINDOW_X,
                if is_dialog {
                    (spec_sat_sub(screen.geo.width as int, win_w as int) / 2) as u32
                } else {
                    spec_sign_extend_i16(ev.x) as u32
                },
            ),
        ]
    } else {
        Seq::<(u16, u32)>::empty()
    };
    proof {
        assert(values@ =~= e6);
    }
    if ev.value_mask & CONFIG_WINDOW_Y != 0 {
        let y: u32 = if is_dialog {
            sat_sub(screen.geo.height, win_h as u64) / 2
        } else {
            sign_extend_i16(ev.y)
        };
        values.push((CONFIG_WINDOW_Y, y));
    }
    proof {
        assert(values@ =~= spec_configure_values(
            *ev,
            is_dialog,
            screen.geo.width,
            screen.geo.height,
            win_w,
            win_h,
        ));
    }
    out.push(XRequest::ConfigureMasked { window: ev.window, values });
    proof {
        assert(out@.take(old(out)@.len() as int) =~= old(out)@);
    }
    Ok(())
}

/// The state of the screen and the requests after a destroy notification
/// for a window no tag manages: nothing happens.
///
/// Otherwise `on_destroy_notify` removes the window from its tag; when it
/// was the focused one, the first controlled client takes the focus, or
/// the input focus returns to the root. A normal tag is then laid out
/// anew, and the client list is advertised again.
pub open spec fn destroy_notify_post(
    pre: Screen,
    post: Screen,
    window: u32,
    old_out: Seq<XRequest>,
    new_out: Seq<XRequest>,
) -> bool {
    &&& post.id == pre.id
    &&& post.root == pre.root
    &&& post.geo == pre.geo
    &&& post.config == pre.config
    &&& post.focused_tag_id == pre.focused_tag_id
    &&& post.tags@.len() == pre.tags@.len()
    &&& !pre.spec_manages(window) ==> {
        &&& post == pre
        &&& new_out == old_out
    }
    &&& pre.spec_manages(window) ==> exists|ti: int, q: int|
        #![trigger pre.tags@[ti].clients@[q]]
        {
            let t0 = pre.tags@[ti];
            &&& 0 <= ti < pre.tags@.len()
            &&& 0 <= q < t0.clients@.len()
            &&& t0.clients@[q].id == window
            &&& {
                let was_focused = t0.focused_cid == window;
                let rcs = t0.clients@.remove(q);
                let nf = spec_first_controlled_id(rcs);
                let tgeo2 = spec_tag_geometry(t0.geo.w, t0.geo.h, spec_max_pads(rcs));
                let normal = ti < pre.tags@.len() - 1;
                let t1 = post.tags@[ti];
                &&& forall|k: int|
                    0 <= k < pre.tags@.len() && k != ti ==> post.tags@[k] == pre.tags@[k]
                &&& t1.id == t0.id
                &&& t1.focused_cid == (if was_focused {
                    nf
                } else {
                    t0.focused_cid
                })
                &&& t1.geo == tgeo2
                &&& t1.clients@.len() == rcs.len()
                &&& (if normal {
                    forall|i: int|
                        0 <= i < rcs.len() ==> t1.clients@[i] == spec_arranged_client(
                            rcs[i],
                            spec_merged_geometry(tgeo2, pre.tags@.last().geo.paddings),
                            pre.config.useless_gap,
                            pre.config.border.width,
                            spec_tile_count(rcs),
                            spec_tile_index(rcs, i),
                        )
                } else {
                    t1.clients@ == rcs
                })
                &&& {
                    let focus_piece = if !was_focused {
                        Seq::<XRequest>::empty()
                    } else if nf != NO_CLIENT {
                        seq![
                            XRequest::SetInputFocus(nf),
                            XRequest::SetBorderColor {
                                window: nf,
                                color: pre.config.border.color_active,
                            },
                        ]
                    } else {
                        seq![XRequest::DisableInputFocus]
                    };
                    let conf_piece = if normal {
                        configure_requests(t1.clients@)
                    } else {
                        Seq::<XRequest>::empty()
                    };
                    &&& new_out.len() == old_out.len() + focus_piece.len() + conf_piece.len()
                        + 1
                    &&& new_out.take(new_out.len() - 1) == old_out + focus_piece + conf_piece
                    &&& is_set_client_list(new_out.last(), all_client_ids(post.tags@))
                }
            }
        }
}

/// The state of the screen and the requests after a map request was
/// served. The window goes to the sticky tag when it advertises the Dock
/// type, else to the focused tag. A window that is already managed is
/// only mapped again. A new window becomes a client at the front of the
/// target tag, gets its desktop property, takes the focus when the
/// manager controls it, and the target (unless it is the sticky tag) is
/// laid out anew; the client list is then advertised again.
pub open spec fn map_request_post(
    pre: Screen,
    post: Screen,
    window: u32,
    attrs: WindowAttributes,
    old_out: Seq<XRequest>,
    new_out: Seq<XRequest>,
) -> bool {
    let dock_route = attrs.types@.contains(ClientType::Dock);
    let target = if dock_route {
        STICKY_TAG_ID
    } else {
        pre.focused_tag_id
    };
    &&& post.id == pre.id
    &&& post.root == pre.root
    &&& post.geo == pre.geo
    &&& post.config == pre.config
    &&& post.focused_tag_id == pre.focused_tag_id
    &&& post.tags@.len() == pre.tags@.len()
    &&& (!dock_route && !pre.spec_has_tag(pre.focused_tag_id)) ==> {
        &&& post == pre
        &&& new_out == old_out
    }
    &&& ((dock_route || pre.spec_has_tag(pre.focused_tag_id)) && pre.spec_manages(window))
        ==> {
        &&& post == pre
        &&& new_out == old_out.push(XRequest::MapWindow(window))
    }
    &&& ((dock_route || pre.spec_has_tag(pre.focused_tag_id)) && !pre.spec_manages(window))
        ==> {
        let ti = pre.spec_tag_index(target);
        let t0 = pre.tags@[ti];
        let cdock = crate::client::spec_types_dock(attrs.types@);
        let tgeo2 = spec_tag_geometry(
            t0.geo.w,
            t0.geo.h,
            crate::client::geometry::spec_pad_max(t0.geo.paddings, attrs.strut),
        );
        exists|c: Client|
            #![trigger c.wf()]
            {
                let mids = seq![c] + t0.clients@;
                let t1 = post.tags@[ti];
                &&& c.wf()
                &&& c.id == window
                &&& c.wm_pid == attrs.wm_pid
                &&& c.wm_class == attrs.wm_class
                &&& c.wm_name == attrs.wm_name
                &&& c.geo.paddings == attrs.strut
                &&& c.types@ == attrs.types@
                &&& c.protocols@ == attrs.protocols@
                &&& c.is_controlled == !cdock
                &&& c.states@ == (if cdock {
                    seq![ClientState::Sticky]
                } else {
                    Seq::<ClientState>::empty()
                })
                &&& forall|k: int|
                    0 <= k < pre.tags@.len() && k != ti ==> post.tags@[k] == pre.tags@[k]
                &&& t1.id == t0.id
                &&& t1.geo == tgeo2
                &&& t1.focused_cid == (if c.is_controlled {
                    window
                } else {
                    t0.focused_cid
                })
                &&& t1.clients@.len() == mids.len()
                &&& (if target != STICKY_TAG_ID {
                    forall|i: int|
                        0 <= i < mids.len() ==> t1.clients@[i] == spec_arranged_client(
                            mids[i],
                            spec_merged_geometry(tgeo2, pre.tags@.last().geo.paddings),
                            pre.config.useless_gap,
                            pre.config.border.width,
                            spec_tile_count(mids),
                            spec_tile_index(mids, i),
                        )
                } else {
                    t1.clients@ == mids
                })
                &&& {
                    let focus_piece = if !c.is_controlled {
                        Seq::<XRequest>::empty()
                    } else {
                        (if spec_has_id(mids, t0.focused_cid) {
                            seq![
                                XRequest::SetBorderColor {
                                    window: t0.focused_cid,
                                    color: pre.config.border.color_normal,
                                },
                            ]
                        } else {
                            Seq::<XRequest>::empty()
                        }) + seq![
                            XRequest::SetInputFocus(window),
                            XRequest::SetBorderColor {
                                window,
                                color: pre.config.border.color_active,
                            },
                        ]
                    };
                    let conf_piece = if target != STICKY_TAG_ID {
                        configure_requests(t1.clients@)
                    } else {
                        Seq::<XRequest>::empty()
                    };
                    exists|ctor: Seq<XRequest>|
                        #![trigger ctor.len()]
                        {
                            &&& ctor.len() == 2
                            &&& is_set_allowed_actions(
                                ctor[0],
                                window,
                                seq![crate::client::ClientAction::Close],
                            )
                            &&& (cdock ==> ctor[1] == (XRequest::AppendWmState {
                                window,
                                state: ClientState::Sticky,
                            }))
                            &&& (!cdock ==> is_set_allowed_actions(
                                ctor[1],
                                window,
                                seq![
                                    crate::client::ClientAction::Close,
                                    crate::client::ClientAction::Maximize,
                                    crate::client::ClientAction::Fullscreen,
                                    crate::client::ClientAction::ChangeTag,
                                    crate::client::ClientAction::Resize,
                                    crate::client::ClientAction::Move,
                                ],
                            ))
                            &&& new_out.len() == old_out.len() + 4 + focus_piece.len()
                                + conf_piece.len() + 1
                            &&& new_out.take(new_out.len() - 1) == old_out + seq![
                                XRequest::MapWindow(window),
                            ] + ctor + seq![
                                XRequest::SetWindowDesktop { window, desktop: target },
                            ] + focus_piece + conf_piece
                            &&& is_set_client_list(new_out.last(), all_client_ids(post.tags@))
                        }
                }
            }
    }
}

/// Handles a map request: routes the window to the sticky tag (docks) or
/// the focused tag, adopts it as a client when it is new, and shows it;
/// see `map_request_post`.
#[verifier::rlimit(100)]
#[verifier::spinoff_prover]
pub fn on_map_request(
    screen: &mut Screen,
    window: u32,
    attrs: WindowAttributes,
    out: &mut Vec<XRequest>,
) -> (r: Result<(), Error>)
    requires
        old(screen).wf(),
        window != 0,
        attrs.types@.no_duplicates(),
    ensures
        final (screen).wf(),
        map_request_post(*old(screen), *final (screen), window, attrs, old(out)@, final (out)@),
        (!attrs.types@.contains(ClientType::Dock) && !old(screen).spec_has_tag(
            old(screen).focused_tag_id,
        )) ==> (r matches Err(e) && e matches Error::TagNotFound(x) && x == old(
            screen,
        ).focused_tag_id),
        (attrs.types@.contains(ClientType::Dock) || old(screen).spec_has_tag(
            old(screen).focused_tag_id,
        )) ==> r is Ok,
{
    // Route: docks live on the sticky tag, everything else on the focused
    // one.
    let mut dock_route = false;
    let mut i: usize = 0;
    while i < attrs.types.len()
        invariant
            0 <= i <= attrs.types@.len(),
            dock_route == attrs.types@.take(i as int).contains(ClientType::Dock),
        decreases attrs.types@.len() - i,
    {
        proof {
            let t = attrs.types@.take(i + 1int);
            assert(forall|k: int| 0 <= k < i ==> t[k] == attrs.types@.take(i as int)[k]);
            assert(t[i as int] == attrs.types@[i as int]);
            if attrs.types@.take(i as int).contains(ClientType::Dock) {
                let w = choose|w: int|
                    0 <= w < i && attrs.types@.take(i as int)[w] == ClientType::Dock;
                assert(t[w] == ClientType::Dock);
            }
        }
        if attrs.types[i] == ClientType::Dock {
            dock_route = true;
            proof {
                assert(attrs.types@.take(i + 1int)[i as int] == ClientType::Dock);
            }
        }
        i = i + 1;
    }
    proof {
        assert(attrs.types@.take(attrs.types@.len() as int) =~= attrs.types@);
    }

    let target: u32 = if dock_route {
        STICKY_TAG_ID
    } else {
        screen.focused_tag_id
    };
    let ti = match screen.tag_index(target) {
        None => {
            return Err(Error::TagNotFound(target));
        },
        Some(i) => i,
    };

    out.push(XRequest::MapWindow(window));
    if screen.manages_client(window) {
        return Ok(());
    }

    let ghost t0 = screen.tags@[ti as int];
    let ghost out0 = out@;
    let client = Client::new(window, attrs, out);
    let ghost c = client;
    let ghost out_after_ctor = out@;
    let ghost ctor = out_after_ctor.subrange(
        old(out)@.len() as int + 1,
        old(out)@.len() as int + 3,
    );
    out.push(XRequest::SetWindowDesktop { window, desktop: target });
    let ghost out_before_focus = out@;
    proof {
        assert(out_after_ctor.take(old(out)@.len() as int + 1) == out0);
        assert(out0 =~= old(out)@ + seq![XRequest::MapWindow(window)]);
        assert(out_after_ctor =~= out_after_ctor.take(old(out)@.len() as int + 1) + ctor);
        assert(out_before_focus =~= old(out)@ + seq![XRequest::MapWindow(window)] + ctor + seq![
            XRequest::SetWindowDesktop { window, desktop: target },
        ]);
    }

    let mut t = screen.tags.remove(ti);
    proof {
        if spec_has_id(t.clients@, window) {
            assert(old(screen).spec_manages(window));
        }
    }
    t.manage_client(client);
    let ghost t_managed = t;
    let fres = t.focus_client_if_controlled(window, &screen.config, out);
    proof {
        assert(t.spec_contains(window)) by {
            assert(t.clients@[0].id == window);
        }
        assert(crate::tag::spec_client_by_id(seq![c] + t0.clients@, window) == c) by {
            let w = choose|w: int|
                0 <= w < t.clients@.len() && (seq![c] + t0.clients@)[w].id == window;
            if w != 0 {
                assert(t0.clients@[w - 1].id == window);
                assert(old(screen).spec_manages(window));
                assert(false);
            }
        }
    }
    screen.tags.insert(ti, t);
    proof {
        assert(screen.tags@ =~= old(screen).tags@.update(ti as int, t));
        assert forall|a: int, b: int, id: u32|
            #![trigger spec_has_id(screen.tags@[a].clients@, id), spec_has_id(screen.tags@[b].clients@, id)]
            0 <= a < b < screen.tags@.len() implies !(spec_has_id(screen.tags@[a].clients@, id)
            && spec_has_id(screen.tags@[b].clients@, id)) by {
            if spec_has_id(screen.tags@[a].clients@, id) && spec_has_id(
                screen.tags@[b].clients@,
                id,
            ) {
                if a == ti as int || b == ti as int {
                    if spec_has_id(t.clients@, id) {
                        let w = choose|w: int|
                            0 <= w < t.clients@.len() && t.clients@[w].id == id;
                        if w == 0 {
                            assert(id == window);
                        } else {
                            assert(t.clients@[w] == t0.clients@[w - 1]);
                            assert(spec_has_id(t0.clients@, id));
                        }
                    }
                }
                if id == window {
                    let other = if a == ti as int {
                        b
                    } else {
                        a
                    };
                    if other != ti as int {
                        assert(spec_has_id(old(screen).tags@[other].clients@, window));
                        assert(old(screen).spec_manages(window));
                    }
                    assert(false);
                } else {
                    assert(spec_has_id(old(screen).tags@[a].clients@, id));
                    assert(spec_has_id(old(screen).tags@[b].clients@, id));
                    assert(false);
                }
            }
        }
        assert(screen.wf());
    }

    if target != STICKY_TAG_ID {
        let ares = screen.arrange_tag(target, out);
        proof {
            assert(ares is Ok);
        }
    }
    screen.refresh(out);
    proof {
        let pre = *old(screen);
        let mids = seq![c] + t0.clients@;
        let t1 = screen.tags@[ti as int];
        let focus_piece = if !c.is_controlled {
            Seq::<XRequest>::empty()
        } else {
            (if spec_has_id(mids, t0.focused_cid) {
                seq![
                    XRequest::SetBorderColor {
                        window: t0.focused_cid,
                        color: pre.config.border.color_normal,
                    },
                ]
            } else {
                Seq::<XRequest>::empty()
            }) + seq![
                XRequest::SetInputFocus(window),
                XRequest::SetBorderColor { window, color: pre.config.border.color_active },
            ]
        };
        let conf_piece = if target != STICKY_TAG_ID {
            configure_requests(t1.clients@)
        } else {
            Seq::<XRequest>::empty()
        };
        assert(ctor.len() == 2);
        if c.is_controlled {
            assert(crate::tag::focus_requests(t_managed, window, pre.config) =~= focus_piece);
        }
        assert(out@.take(out@.len() - 1) =~= out_before_focus + focus_piece + conf_piece);
        assert(out@.take(out@.len() - 1) =~= old(out)@ + seq![XRequest::MapWindow(window)]
            + ctor + seq![XRequest::SetWindowDesktop { window, desktop: target }] + focus_piece
            + conf_piece);
    }
    Ok(())
}

/// The state of the screen and the requests after a `_NET_WM_STATE`
/// message asked for a fullscreen change on a client of the focused tag:
/// the client's state list changes per the operation, the matching
/// property write goes out, and the focused tag is laid out anew.
pub open spec fn fullscreen_message_post(
    pre: Screen,
    post: Screen,
    window: u32,
    op: Operation,
    old_out: Seq<XRequest>,
    new_out: Seq<XRequest>,
) -> bool {
    let fi = pre.spec_tag_index(pre.focused_tag_id);
    let t0 = pre.tags@[fi];
    &&& post.id == pre.id
    &&& post.root == pre.root
    &&& post.geo == pre.geo
    &&& post.config == pre.config
    &&& post.focused_tag_id == pre.focused_tag_id
    &&& post.tags@.len() == pre.tags@.len()
    &&& forall|k: int| 0 <= k < pre.tags@.len() && k != fi ==> post.tags@[k] == pre.tags@[k]
    &&& exists|q: int, mid: Seq<Client>|
        #![trigger t0.clients@[q], mid.len()]
        {
            let c0 = t0.clients@[q];
            let t1 = post.tags@[fi];
            &&& 0 <= q < t0.clients@.len()
            &&& c0.id == window
            &&& mid.len() == t0.clients@.len()
            &&& forall|i: int| 0 <= i < mid.len() && i != q ==> mid[i] == t0.clients@[i]
            &&& crate::client::eq_except_states(c0, mid[q])
            &&& mid[q].states@ == crate::client::state::states_after_op(
                c0.states@,
                ClientState::Fullscreen,
                op,
            )
            &&& t1.id == t0.id
            &&& t1.focused_cid == t0.focused_cid
            &&& t1.geo == t0.geo
            &&& t1.clients@.len() == mid.len()
            &&& forall|i: int|
                0 <= i < mid.len() ==> t1.clients@[i] == spec_arranged_client(
                    mid[i],
                    spec_merged_geometry(t0.geo, pre.tags@.last().geo.paddings),
                    pre.config.useless_gap,
                    pre.config.border.width,
                    spec_tile_count(mid),
                    spec_tile_index(mid, i),
                )
            &&& exists|m: Seq<XRequest>|
                #![trigger m.len()]
                {
                    &&& crate::client::state::set_state_emits(
                        c0,
                        ClientState::Fullscreen,
                        op,
                        old_out,
                        m,
                    )
                    &&& new_out == m + configure_requests(t1.clients@)
                }
        }
}

/// Handles a client message. `_NET_CURRENT_DESKTOP` asks to view the
/// named tag. `_NET_WM_STATE` with the fullscreen atom applies the
/// requested change to the named client of the focused tag and lays the
/// tag out anew; a message about an unmanaged window, an absent focused
/// tag, an unknown state atom, or an unsupported message type does
/// nothing.
#[verifier::rlimit(100)]
#[verifier::spinoff_prover]
pub fn on_client_message(
    screen: &mut Screen,
    window: u32,
    type_atom: u32,
    data0: u32,
    data1: u32,
    atoms: &AtomTable,
    out: &mut Vec<XRequest>,
) -> (r: Result<(), Error>)
    requires
        old(screen).wf(),
    ensures
        final (screen).wf(),
        spec_client_message_from(*atoms, type_atom) == ClientMessage::NotSupported ==> {
            &&& r is Ok
            &&& *final (screen) == *old(screen)
            &&& final (out)@ == old(out)@
        },
        spec_client_message_from(*atoms, type_atom) == ClientMessage::ViewDesktop ==> {
            &&& view_tag_post(*old(screen), *final (screen), data0, old(out)@, final (out)@)
            &&& (view_tag_ok(*old(screen), data0) ==> r is Ok)
            &&& (!view_tag_ok(*old(screen), data0) ==> (r matches Err(e) && e
                matches Error::TagNotFound(x) && x == data0))
        },
        spec_client_message_from(*atoms, type_atom) == ClientMessage::ChangeState ==> {
            let fi = old(screen).spec_tag_index(old(screen).focused_tag_id);
            &&& r is Ok
            &&& (!old(screen).spec_has_tag(old(screen).focused_tag_id) || !spec_has_id(
                old(screen).tags@[fi].clients@,
                window,
            ) || data1 != atoms.wm_state_fullscreen) ==> {
                &&& *final (screen) == *old(screen)
                &&& final (out)@ == old(out)@
            }
            &&& (old(screen).spec_has_tag(old(screen).focused_tag_id) && spec_has_id(
                old(screen).tags@[fi].clients@,
                window,
            ) && data1 == atoms.wm_state_fullscreen) ==> fullscreen_message_post(
                *old(screen),
                *final (screen),
                window,
                crate::util::spec_operation_from(data0),
                old(out)@,
                final (out)@,
            )
        },
{
    match ClientMessage::from_atom(atoms, type_atom) {
        ClientMessage::ViewDesktop => screen.view_tag(data0, out),
        ClientMessage::ChangeState => {
            let operation = Operation::from_u32(data0);
            let fi = match screen.tag_index(screen.focused_tag_id) {
                None => {
                    return Ok(());
                },
                Some(i) => i,
            };
            let tid = screen.focused_tag_id;
            if !screen.tags[fi].contains_client(window) {
                return Ok(());
            }
            if data1 != atoms.wm_state_fullscreen {
                return Ok(());
            }

            let ghost t0 = screen.tags@[fi as int];
            let mut t = screen.tags.remove(fi);
            let sres = t.set_client_state(window, ClientState::Fullscreen, operation, out);
            let ghost m_out = out@;
            screen.tags.insert(fi, t);
            proof {
                assert(screen.tags@ =~= old(screen).tags@.update(fi as int, t));
                assert forall|a: int, b: int, id: u32|
                    #![trigger spec_has_id(screen.tags@[a].clients@, id), spec_has_id(screen.tags@[b].clients@, id)]
                    0 <= a < b < screen.tags@.len() implies !(spec_has_id(
                    screen.tags@[a].clients@,
                    id,
                ) && spec_has_id(screen.tags@[b].clients@, id)) by {
                    if spec_has_id(screen.tags@[a].clients@, id) && spec_has_id(
                        screen.tags@[b].clients@,
                        id,
                    ) {
                        if a == fi as int || b == fi as int {
                            if spec_has_id(t.clients@, id) {
                                let w = choose|w: int|
                                    0 <= w < t.clients@.len() && t.clients@[w].id == id;
                                assert(t0.clients@[w].id == id);
                                assert(spec_has_id(t0.clients@, id));
                            }
                        }
                        assert(spec_has_id(old(screen).tags@[a].clients@, id));
                        assert(spec_has_id(old(screen).tags@[b].clients@, id));
                        assert(false);
                    }
                }
                assert(screen.wf());
            }
            let ares = screen.arrange_tag(tid, out);
            proof {
                assert(ares is Ok);
                assert(out@ =~= m_out + configure_requests(
                    screen.tags@[fi as int].clients@,
                ));
            }
            Ok(())
        },
        ClientMessage::NotSupported => Ok(()),
    }
}

/// The position of the tag that manages the window.
fn tag_of_client(screen: &Screen, window: u32) -> (r: Option<usize>)
    ensures
        r matches Some(i) ==> 0 <= i < screen.tags@.len() && spec_has_id(
            screen.tags@[i as int].clients@,
            window,
        ),
        r is None ==> !screen.spec_manages(window),
{
    let mut i: usize = 0;
    while i < screen.tags.len()
        invariant
            0 <= i <= screen.tags@.len(),
            forall|k: int| 0 <= k < i ==> !spec_has_id(#[trigger] screen.tags@[k].clients@, window),
        decreases screen.tags@.len() - i,
    {
        if screen.tags[i].contains_client(window) {
            return Some(i);
        }
        i = i + 1;
    }
    None
}

/// Handles a destroy notification: the tag that managed the window lets it
/// go; see `destroy_notify_post`. A notification about an unknown window
/// is the expected echo of an already-forgotten client and does nothing.
#[verifier::rlimit(100)]
#[verifier::spinoff_prover]
pub fn on_destroy_notify(screen: &mut Screen, window: u32, out: &mut Vec<XRequest>) -> (r:
    Result<(), Error>)
    requires
        old(screen).wf(),
    ensures
        final (screen).wf(),
        r is Ok,
        destroy_notify_post(*old(screen), *final (screen), window, old(out)@, final (out)@),
{
    let ti = match tag_of_client(screen, window) {
        None => {
            return Ok(());
        },
        Some(i) => i,
    };

    let ghost t0 = screen.tags@[ti as int];
    let ghost q = choose|q: int| 0 <= q < t0.clients@.len() && t0.clients@[q].id == window;

    let mut t = screen.tags.remove(ti);
    let was_focused = t.focused_cid == window;
    t.unmanage_client(window);
    if was_focused {
        match t.get_first_controlled_client() {
            Ok(c) => {
                let cid = c.id;
                proof {
                    assert(forall|i: int|
                        0 <= i < t.clients@.len() ==> (#[trigger] t.clients@[i]).id
                            != NO_CLIENT);
                    spec_first_controlled_matches(t.clients@, cid);
                }
                let fres = t.focus_client(cid, &screen.config, out);
                proof {
                    assert(fres == Some(true));
                }
            },
            Err(_) => {
                proof {
                    assert(forall|i: int|
                        0 <= i < t.clients@.len() ==> (#[trigger] t.clients@[i]).id
                            != NO_CLIENT);
                    crate::tag::lemma_first_controlled_id(t.clients@);
                }
                out.push(XRequest::DisableInputFocus);
            },
        }
    }
    screen.tags.insert(ti, t);
    proof {
        assert(screen.tags@ =~= old(screen).tags@.update(ti as int, t));
        assert forall|a: int, b: int, id: u32|
            #![trigger spec_has_id(screen.tags@[a].clients@, id), spec_has_id(screen.tags@[b].clients@, id)]
            0 <= a < b < screen.tags@.len() implies !(spec_has_id(screen.tags@[a].clients@, id)
            && spec_has_id(screen.tags@[b].clients@, id)) by {
            if spec_has_id(screen.tags@[a].clients@, id) && spec_has_id(
                screen.tags@[b].clients@,
                id,
            ) {
                if a == ti as int || b == ti as int {
                    assert(forall|w: int|
                        0 <= w < t.clients@.len() ==> #[trigger] t.clients@[w]
                            == t0.clients@.remove(q)[w]);
                    if spec_has_id(t.clients@, id) {
                        let w = choose|w: int|
                            0 <= w < t.clients@.len() && t.clients@[w].id == id;
                        if w < q {
                            assert(t0.clients@[w].id == id);
                        } else {
                            assert(t0.clients@[w + 1].id == id);
                        }
                        assert(spec_has_id(t0.clients@, id));
                    }
                }
                assert(spec_has_id(old(screen).tags@[a].clients@, id));
                assert(spec_has_id(old(screen).tags@[b].clients@, id));
                assert(false);
            }
        }
        assert(screen.wf());
    }

    let is_sticky = ti == screen.tags.len() - 1;
    if !is_sticky {
        let tid = ti as u32;
        proof {
            assert(screen.tags@[ti as int].id == ti);
        }
        let ares = screen.arrange_tag(tid, out);
        proof {
            assert(ares is Ok);
        }
    }
    screen.refresh(out);
    proof {
        let pre = *old(screen);
        let rcs = t0.clients@.remove(q);
        let was = t0.focused_cid == window;
        let nf = spec_first_controlled_id(rcs);
        let focus_piece = if !was {
            Seq::<XRequest>::empty()
        } else if nf != NO_CLIENT {
            seq![
                XRequest::SetInputFocus(nf),
                XRequest::SetBorderColor { window: nf, color: pre.config.border.color_active },
            ]
        } else {
            seq![XRequest::DisableInputFocus]
        };
        let normal = ti < pre.tags@.len() - 1;
        let t1 = screen.tags@[ti as int];
        let conf_piece = if normal {
            configure_requests(t1.clients@)
        } else {
            Seq::<XRequest>::empty()
        };
        assert(out@.take(out@.len() - 1) =~= old(out)@ + focus_piece + conf_piece);
    }
    Ok(())
}

/// The ID of the first controlled client is the one the search returns.
proof fn spec_first_controlled_matches(cs: Seq<Client>, cid: u32)
    requires
        forall|i: int| 0 <= i < cs.len() ==> (#[trigger] cs[i]).id != NO_CLIENT,
        exists|i: int|
            {
                &&& 0 <= i < cs.len()
                &&& (#[trigger] cs[i]).is_controlled
                &&& cs[i].id == cid
                &&& forall|k: int| 0 <= k < i ==> !cs[k].is_controlled
            },
    ensures
        spec_first_controlled_id(cs) == cid,
{
    crate::tag::lemma_first_controlled_id(cs);
    let i = choose|i: int|
        {
            &&& 0 <= i < cs.len()
            &&& (#[trigger] cs[i]).is_controlled
            &&& cs[i].id == cid
            &&& forall|k: int| 0 <= k < i ==> !cs[k].is_controlled
        };
    assert(spec_first_controlled_id(cs) != NO_CLIENT);
    let j = choose|j: int|
        {
            &&& 0 <= j < cs.len()
            &&& (#[trigger] cs[j]).is_controlled
            &&& cs[j].id == spec_first_controlled_id(cs)
            &&& forall|k: int| 0 <= k < j ==> !cs[k].is_controlled
        };
    assert(i == j);
}

} // verus!
