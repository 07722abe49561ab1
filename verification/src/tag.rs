//! A tag is one virtual desktop: an ordered list of clients (front = most
//! recent, the master candidate), the ID of the focused client, and the
//! aggregated geometry. The invariants of the data model live here: client
//! IDs are unique within a tag, the focused ID is zero or present, and the
//! aggregated padding is the pointwise maximum over the clients.

pub mod error;
pub mod geometry;

use vstd::prelude::*;

pub use crate::tag::error::TagErr;
pub use crate::tag::geometry::{spec_tag_geometry, TagGeometry};

use crate::client::geometry::spec_pad_max;
use crate::client::state::spec_last_state;
use crate::client::{Client, ClientGeometry, ClientState, Paddings};
use crate::config::Config;
use crate::errors::Error;
use crate::layout::tile::{spec_tile_h, spec_tile_w, spec_tile_x, spec_tile_y};
use crate::layout::{Layout, LayoutTile};
use crate::requests::XRequest;
use crate::util::{cap_add, min1, sat_sub, spec_cap32, spec_min1, spec_sat_sub};

verus! {

/// The ID a tag reserves for "no client focused".
pub const NO_CLIENT: u32 = 0;

/// The pointwise maximum of the clients' paddings; zero on every side when
/// there are no clients.
pub open spec fn spec_max_pads(cs: Seq<Client>) -> Paddings
    decreases cs.len(),
{
    if cs.len() == 0 {
        Paddings { top: 0u32, bottom: 0u32, left: 0u32, right: 0u32 }
    } else {
        spec_pad_max(spec_max_pads(cs.drop_last()), cs.last().geo.paddings)
    }
}

/// Prepending a client folds its paddings into the aggregate.
pub proof fn lemma_max_pads_prepend(c: Client, cs: Seq<Client>)
    ensures
        spec_max_pads(seq![c] + cs) == spec_pad_max(spec_max_pads(cs), c.geo.paddings),
    decreases cs.len(),
{
    if cs.len() == 0 {
        assert(seq![c] + cs =~= seq![c]);
        assert((seq![c]).drop_last() =~= Seq::<Client>::empty());
        assert(spec_max_pads(seq![c]) == spec_pad_max(spec_max_pads(Seq::<Client>::empty()), (
        seq![c]).last().geo.paddings));
        assert((seq![c]).last() == c);
    } else {
        let l = cs.last();
        let rest = cs.drop_last();
        assert((seq![c] + cs).drop_last() =~= seq![c] + rest);
        assert((seq![c] + cs).last() == l) by {
            assert((seq![c] + cs)[cs.len() as int] == cs[cs.len() - 1]);
        }
        lemma_max_pads_prepend(c, rest);
        assert(spec_max_pads(seq![c] + cs) == spec_pad_max(
            spec_pad_max(spec_max_pads(rest), c.geo.paddings),
            l.geo.paddings,
        ));
        assert(spec_max_pads(cs) == spec_pad_max(spec_max_pads(rest), l.geo.paddings));
        assert(spec_pad_max(spec_pad_max(spec_max_pads(rest), c.geo.paddings), l.geo.paddings)
            == spec_pad_max(spec_pad_max(spec_max_pads(rest), l.geo.paddings), c.geo.paddings));
    }
}

/// The sequence holds a client with the given window ID.
pub open spec fn spec_has_id(cs: Seq<Client>, id: u32) -> bool {
    exists|i: int| 0 <= i < cs.len() && cs[i].id == id
}

/// The client with the given window ID; meaningful when IDs are unique and
/// the ID is present.
pub open spec fn spec_client_by_id(cs: Seq<Client>, id: u32) -> Client {
    cs[choose|i: int| 0 <= i < cs.len() && cs[i].id == id]
}

/// The first position of `x` in `vs`; meaningful when `x` occurs.
pub open spec fn spec_pos_of(vs: Seq<u32>, x: u32) -> int
    decreases vs.len(),
{
    if vs.len() == 0 {
        0
    } else if vs[0] == x {
        0
    } else {
        1 + spec_pos_of(vs.drop_first(), x)
    }
}

/// When `x` occurs in `vs`, its first position is a valid index, holds `x`,
/// and nothing before it does.
pub proof fn lemma_pos_of(vs: Seq<u32>, x: u32)
    requires
        vs.contains(x),
    ensures
        0 <= spec_pos_of(vs, x) < vs.len(),
        vs[spec_pos_of(vs, x)] == x,
        forall|k: int| 0 <= k < spec_pos_of(vs, x) ==> vs[k] != x,
    decreases vs.len(),
{
    if vs[0] != x {
        let rest = vs.drop_first();
        assert(rest.contains(x)) by {
            let j = choose|j: int| 0 <= j < vs.len() && vs[j] == x;
            assert(rest[j - 1] == x);
        }
        lemma_pos_of(rest, x);
        assert(forall|k: int| 0 <= k < rest.len() ==> rest[k] == vs[k + 1]);
        assert(forall|k: int| 0 <= k < spec_pos_of(vs, x) ==> vs[k] != x) by {
            assert(forall|k: int|
                1 <= k < spec_pos_of(vs, x) ==> vs[k] == rest[k - 1] && rest[k - 1] != x);
        }
    }
}

/// The window IDs of the non-Hidden clients, in list order.
pub open spec fn visible_ids(cs: Seq<Client>) -> Seq<u32>
    decreases cs.len(),
{
    if cs.len() == 0 {
        Seq::empty()
    } else {
        let rest = visible_ids(cs.drop_last());
        if !cs.last().states@.contains(ClientState::Hidden) {
            rest.push(cs.last().id)
        } else {
            rest
        }
    }
}

/// The requests that map every non-Hidden client, in list order.
pub open spec fn map_requests(cs: Seq<Client>) -> Seq<XRequest>
    decreases cs.len(),
{
    if cs.len() == 0 {
        Seq::empty()
    } else {
        let rest = map_requests(cs.drop_last());
        if !cs.last().states@.contains(ClientState::Hidden) {
            rest.push(XRequest::MapWindow(cs.last().id))
        } else {
            rest
        }
    }
}

/// The requests that unmap every non-Hidden client, in list order.
pub open spec fn unmap_requests(cs: Seq<Client>) -> Seq<XRequest>
    decreases cs.len(),
{
    if cs.len() == 0 {
        Seq::empty()
    } else {
        let rest = unmap_requests(cs.drop_last());
        if !cs.last().states@.contains(ClientState::Hidden) {
            rest.push(XRequest::UnmapWindow(cs.last().id))
        } else {
            rest
        }
    }
}

/// The requests that move the focus to `wid`: the previously focused
/// client's border fades to the normal color, then `wid` receives the input
/// focus and the active border color.
pub open spec fn focus_requests(t: Tag, wid: u32, cfg: Config) -> Seq<XRequest> {
    let prev = if spec_has_id(t.clients@, t.focused_cid) {
        seq![
            XRequest::SetBorderColor {
                window: t.focused_cid,
                color: cfg.border.color_normal,
            },
        ]
    } else {
        Seq::empty()
    };
    prev + seq![
        XRequest::SetInputFocus(wid),
        XRequest::SetBorderColor { window: wid, color: cfg.border.color_active },
    ]
}

/// One virtual desktop.
#[derive(Clone, Debug)]
pub struct Tag {
    /// Tag ID: the desktop number, or the all-ones sentinel for the sticky
    /// tag.
    pub id: u32,
    /// Display name, used for `_NET_DESKTOP_NAMES`.
    pub alias: String,
    /// Aggregated geometry of the tag.
    pub geo: TagGeometry,
    /// ID of the focused client; `NO_CLIENT` when none is focused.
    pub focused_cid: u32,
    /// The managed clients, most recent (master candidate) first.
    pub clients: Vec<Client>,
}

impl Tag {
    /// The tag's invariants: well-formed clients with unique IDs, a focused
    /// ID that is zero or present, and a geometry whose paddings aggregate
    /// the clients' paddings.
    pub open spec fn wf(self) -> bool {
        &&& forall|i: int, j: int|
            0 <= i < j < self.clients@.len() ==> self.clients@[i].id != self.clients@[j].id
        &&& forall|i: int| 0 <= i < self.clients@.len() ==> (#[trigger] self.clients@[i]).wf()
        &&& (self.focused_cid == NO_CLIENT || spec_has_id(self.clients@, self.focused_cid))
        &&& self.geo.paddings == spec_max_pads(self.clients@)
        &&& self.geo == spec_tag_geometry(self.geo.w, self.geo.h, self.geo.paddings)
    }

    /// The tag holds a client with the given window ID.
    pub open spec fn spec_contains(self, id: u32) -> bool {
        spec_has_id(self.clients@, id)
    }

    /// Creates an empty tag covering a screen of the given size.
    pub fn new(id: u32, alias: String, width: u32, height: u32) -> (r: Tag)
        ensures
            r.id == id,
            r.alias == alias,
            r.focused_cid == NO_CLIENT,
            r.clients@ == Seq::<Client>::empty(),
            r.geo == spec_tag_geometry(
                width,
                height,
                Paddings { top: 0u32, bottom: 0u32, left: 0u32, right: 0u32 },
            ),
            r.wf(),
    {
        let geo = TagGeometry::new(width, height, Paddings::zero());
        Tag { id, alias, geo, focused_cid: NO_CLIENT, clients: Vec::new() }
    }

    /// True iff the tag manages a client with window ID `id`.
    pub fn contains_client(&self, id: u32) -> (r: bool)
        ensures
            r == self.spec_contains(id),
    {
        self.position(id).is_some()
    }

    /// The position of the client with window ID `id` in the client list.
    fn position(&self, id: u32) -> (r: Option<usize>)
        ensures
            r matches Some(i) ==> {
                &&& 0 <= i < self.clients@.len()
                &&& self.clients@[i as int].id == id
                &&& forall|k: int| 0 <= k < i ==> self.clients@[k].id != id
            },
            r is None ==> !self.spec_contains(id),
            r is Some <==> self.spec_contains(id),
    {
        let mut i: usize = 0;
        while i < self.clients.len()
            invariant
                0 <= i <= self.clients@.len(),
                forall|k: int| 0 <= k < i ==> self.clients@[k].id != id,
            decreases self.clients@.len() - i,
        {
            if self.clients[i].id == id {
                return Some(i);
            }
            i = i + 1;
        }
        None
    }

    /// Takes a new client under management: pushes it to the front of the
    /// list (it becomes the master candidate) and folds its paddings into
    /// the aggregate. The client list is not advertised here; use
    /// `Screen::refresh` for that.
    pub fn manage_client(&mut self, client: Client)
        requires
            client.wf(),
            !old(self).spec_contains(client.id),
        ensures
            final (self).clients@ == seq![client] + old(self).clients@,
            final (self).geo == spec_tag_geometry(
                old(self).geo.w,
                old(self).geo.h,
                spec_pad_max(old(self).geo.paddings, client.geo.paddings),
            ),
            final (self).id == old(self).id,
            final (self).alias == old(self).alias,
            final (self).focused_cid == old(self).focused_cid,
            old(self).wf() ==> final (self).wf(),
    {
        let pads = self.geo.paddings.merged_with(&client.geo.paddings);
        self.geo = TagGeometry::new(self.geo.w, self.geo.h, pads);
        self.clients.insert(0, client);
        proof {
            assert(self.clients@ =~= seq![client] + old(self).clients@);
            if old(self).wf() {
                lemma_max_pads_prepend(client, old(self).clients@);
                assert(forall|i: int|
                    0 <= i < old(self).clients@.len() ==> self.clients@[i + 1] == old(
                        self,
                    ).clients@[i]);
                if old(self).focused_cid != NO_CLIENT {
                    let w = choose|i: int|
                        0 <= i < old(self).clients@.len() && old(self).clients@[i].id == old(
                            self,
                        ).focused_cid;
                    assert(self.clients@[w + 1].id == old(self).focused_cid);
                }
            }
        }
    }

    /// Stops managing the client with window ID `wid`: removes it, clears
    /// the focus if it was the focused one, and recomputes the aggregated
    /// paddings from scratch over the remaining clients.
    #[verifier::rlimit(50)]
    pub fn unmanage_client(&mut self, wid: u32)
        requires
            old(self).wf(),
        ensures
            final (self).wf(),
            final (self).id == old(self).id,
            final (self).alias == old(self).alias,
            !old(self).spec_contains(wid) ==> final (self).clients@ == old(self).clients@
                && final (self).focused_cid == old(self).focused_cid,
            old(self).spec_contains(wid) ==> exists|i: int|
                {
                    &&& 0 <= i < old(self).clients@.len()
                    &&& old(self).clients@[i].id == wid
                    &&& final (self).clients@ == old(self).clients@.remove(i)
                },
            final (self).focused_cid == (if old(self).focused_cid == wid {
                NO_CLIENT
            } else {
                old(self).focused_cid
            }),
            !final (self).spec_contains(wid),
            final (self).geo == spec_tag_geometry(
                old(self).geo.w,
                old(self).geo.h,
                spec_max_pads(final (self).clients@),
            ),
    {
        let ghost orig = self.clients@;
        match self.position(wid) {
            Some(i) => {
                self.clients.remove(i);
                proof {
                    assert(forall|k: int|
                        0 <= k < i ==> self.clients@[k] == orig[k]);
                    assert(forall|k: int|
                        i <= k < self.clients@.len() ==> self.clients@[k] == orig[k + 1]);
                    if spec_has_id(self.clients@, wid) {
                        let j = choose|j: int|
                            0 <= j < self.clients@.len() && self.clients@[j].id == wid;
                        if j < i {
                            assert(orig[j].id == wid && orig[i as int].id == wid);
                        } else {
                            assert(orig[j + 1].id == wid && orig[i as int].id == wid);
                        }
                        assert(false);
                    }
                }
            },
            None => {
            },
        }
        if self.focused_cid == wid {
            self.focused_cid = NO_CLIENT;
        }

        // Recompute the aggregate from scratch: a removed client may have
        // carried the maximum on some side.
        let mut pads = Paddings::zero();
        let mut k: usize = 0;
        while k < self.clients.len()
            invariant
                0 <= k <= self.clients@.len(),
                pads == spec_max_pads(self.clients@.take(k as int)),
            decreases self.clients@.len() - k,
        {
            proof {
                let t = self.clients@.take(k + 1int);
                assert(t.drop_last() =~= self.clients@.take(k as int));
                assert(t.last() == self.clients@[k as int]);
            }
            pads = pads.merged_with(&self.clients[k].geo.paddings);
            k = k + 1;
        }
        proof {
            assert(self.clients@.take(self.clients@.len() as int) =~= self.clients@);
        }
        self.geo = TagGeometry::new(self.geo.w, self.geo.h, pads);
        proof {
            if self.focused_cid != NO_CLIENT {
                let w = choose|i: int|
                    0 <= i < orig.len() && orig[i].id == old(self).focused_cid;
                if old(self).spec_contains(wid) {
                    let r = choose|i: int|
                        0 <= i < orig.len() && orig[i].id == wid && self.clients@
                            == orig.remove(i);
                    if w < r {
                        assert(self.clients@[w].id == self.focused_cid);
                    } else {
                        assert(w != r);
                        assert(self.clients@[w - 1].id == self.focused_cid);
                    }
                }
            }
        }
    }
}

impl Tag {
    /// Like `unmanage_client`, but hands the removed client back, so it can
    /// be managed elsewhere.
    pub fn take_client(&mut self, wid: u32) -> (r: Option<Client>)
        requires
            old(self).wf(),
        ensures
            final (self).wf(),
            final (self).id == old(self).id,
            final (self).alias == old(self).alias,
            !old(self).spec_contains(wid) ==> r is None && final (self).clients@ == old(
                self,
            ).clients@ && final (self).focused_cid == old(self).focused_cid && final (self).geo
                == old(self).geo,
            old(self).spec_contains(wid) ==> (r matches Some(c) && exists|i: int|
                {
                    &&& 0 <= i < old(self).clients@.len()
                    &&& old(self).clients@[i].id == wid
                    &&& c == old(self).clients@[i]
                    &&& final (self).clients@ == old(self).clients@.remove(i)
                }),
            final (self).focused_cid == (if old(self).focused_cid == wid {
                NO_CLIENT
            } else {
                old(self).focused_cid
            }),
            !final (self).spec_contains(wid),
            final (self).geo == spec_tag_geometry(
                old(self).geo.w,
                old(self).geo.h,
                spec_max_pads(final (self).clients@),
            ),
    {
        let ghost orig = self.clients@;
        let r = match self.position(wid) {
            Some(i) => {
                let c = self.clients.remove(i);
                proof {
                    assert(forall|k: int| 0 <= k < i ==> self.clients@[k] == orig[k]);
                    assert(forall|k: int|
                        i <= k < self.clients@.len() ==> self.clients@[k] == orig[k + 1]);
                    if spec_has_id(self.clients@, wid) {
                        let j = choose|j: int|
                            0 <= j < self.clients@.len() && self.clients@[j].id == wid;
                        if j < i {
                            assert(orig[j].id == wid && orig[i as int].id == wid);
                        } else {
                            assert(orig[j + 1].id == wid && orig[i as int].id == wid);
                        }
                        assert(false);
                    }
                }
                Some(c)
            },
            None => None,
        };
        if self.focused_cid == wid {
            self.focused_cid = NO_CLIENT;
        }
        self.recompute_paddings();
        proof {
            if self.focused_cid != NO_CLIENT {
                let w = choose|i: int|
                    0 <= i < orig.len() && orig[i].id == old(self).focused_cid;
                if old(self).spec_contains(wid) {
                    let ri = choose|i: int|
                        0 <= i < orig.len() && orig[i].id == wid && self.clients@ == orig.remove(
                            i,
                        );
                    if w < ri {
                        assert(self.clients@[w].id == self.focused_cid);
                    } else {
                        assert(w != ri);
                        assert(self.clients@[w - 1].id == self.focused_cid);
                    }
                }
            }
        }
        r
    }
}

/// Every visible ID belongs to some client of the list.
pub proof fn lemma_visible_ids_present(cs: Seq<Client>)
    ensures
        forall|k: int|
            0 <= k < visible_ids(cs).len() ==> spec_has_id(cs, #[trigger] visible_ids(cs)[k]),
    decreases cs.len(),
{
    if cs.len() > 0 {
        let rest = cs.drop_last();
        lemma_visible_ids_present(rest);
        assert(forall|i: int| 0 <= i < rest.len() ==> rest[i] == cs[i]);
        assert(forall|i: int, id: u32|
            0 <= i < rest.len() && rest[i].id == id ==> spec_has_id(cs, id));
        if !cs.last().states@.contains(ClientState::Hidden) {
            assert(cs[cs.len() - 1].id == cs.last().id);
            assert(forall|k: int|
                0 <= k < visible_ids(rest).len() ==> visible_ids(cs)[k] == visible_ids(rest)[k]);
        }
    }
}

/// When client IDs are unique, the visible IDs are unique too.
pub proof fn lemma_visible_ids_no_duplicates(cs: Seq<Client>)
    requires
        forall|i: int, j: int| 0 <= i < j < cs.len() ==> cs[i].id != cs[j].id,
    ensures
        visible_ids(cs).no_duplicates(),
    decreases cs.len(),
{
    if cs.len() > 0 {
        let rest = cs.drop_last();
        assert(forall|i: int| 0 <= i < rest.len() ==> rest[i] == cs[i]);
        lemma_visible_ids_no_duplicates(rest);
        if !cs.last().states@.contains(ClientState::Hidden) {
            lemma_visible_ids_present(rest);
            let vr = visible_ids(rest);
            if vr.contains(cs.last().id) {
                let k = choose|k: int| 0 <= k < vr.len() && vr[k] == cs.last().id;
                assert(spec_has_id(rest, vr[k]));
                let i = choose|i: int| 0 <= i < rest.len() && rest[i].id == vr[k];
                assert(cs[i].id == cs[cs.len() - 1].id);
                assert(false);
            }
            assert(forall|k: int| 0 <= k < vr.len() ==> vr.push(cs.last().id)[k] == vr[k]);
            assert(vr.push(cs.last().id)[vr.len() as int] == cs.last().id);
            assert(vr.push(cs.last().id).no_duplicates());
        }
    }
}

/// A client the layout engine must place: one in the implicit `Tile`
/// state that the manager controls.
pub open spec fn spec_tileable(c: Client) -> bool {
    c.is_controlled && spec_last_state(c.states@) == ClientState::Tile
}

/// How many clients of the sequence are tileable.
pub open spec fn spec_tile_count(cs: Seq<Client>) -> int
    decreases cs.len(),
{
    if cs.len() == 0 {
        0
    } else {
        spec_tile_count(cs.drop_last()) + if spec_tileable(cs.last()) {
            1int
        } else {
            0int
        }
    }
}

/// The position of client `i` within the tileable subsequence: how many
/// tileable clients precede it.
pub open spec fn spec_tile_index(cs: Seq<Client>, i: int) -> int {
    spec_tile_count(cs.take(i))
}

/// Tile counts of prefixes are non-negative and grow towards the whole.
pub proof fn lemma_tile_count_bounds(cs: Seq<Client>, m: int)
    requires
        0 <= m <= cs.len(),
    ensures
        0 <= spec_tile_count(cs.take(m)) <= spec_tile_count(cs),
        spec_tile_count(cs.take(cs.len() as int)) == spec_tile_count(cs),
    decreases cs.len() - m,
{
    if m == cs.len() {
        assert(cs.take(m) =~= cs);
        lemma_tile_count_nonneg(cs);
    } else {
        lemma_tile_count_bounds(cs, m + 1);
        let t = cs.take(m + 1);
        assert(t.drop_last() =~= cs.take(m));
        assert(t.last() == cs[m]);
        lemma_tile_count_nonneg(cs.take(m));
    }
}

/// A tile count is never negative.
pub proof fn lemma_tile_count_nonneg(cs: Seq<Client>)
    ensures
        spec_tile_count(cs) >= 0,
    decreases cs.len(),
{
    if cs.len() > 0 {
        lemma_tile_count_nonneg(cs.drop_last());
    }
}

/// The aggregated paddings only depend on each client's paddings.
pub proof fn lemma_max_pads_pointwise(a: Seq<Client>, b: Seq<Client>)
    requires
        a.len() == b.len(),
        forall|i: int| 0 <= i < a.len() ==> a[i].geo.paddings == b[i].geo.paddings,
    ensures
        spec_max_pads(a) == spec_max_pads(b),
    decreases a.len(),
{
    if a.len() > 0 {
        assert(forall|i: int|
            0 <= i < a.len() - 1 ==> a.drop_last()[i].geo.paddings
                == b.drop_last()[i].geo.paddings);
        lemma_max_pads_pointwise(a.drop_last(), b.drop_last());
        assert(a.last().geo.paddings == b.last().geo.paddings);
    }
}

/// The geometry a tag is arranged against: its own, with the sticky tag's
/// paddings folded in.
pub open spec fn spec_merged_geometry(geo: TagGeometry, sticky: Paddings) -> TagGeometry {
    spec_tag_geometry(geo.w, geo.h, spec_pad_max(geo.paddings, sticky))
}

/// The client after the arrange step assigned its place. A controlled
/// client whose winning state is Maximized fills the available area behind
/// no border; Fullscreen fills the whole screen at the origin; a tileable
/// client takes the rectangle the tile layout gives position `j` among `n`
/// (the whole available area, behind gaps, when it is alone). Everything
/// else keeps its geometry.
pub open spec fn spec_arranged_client(
    c: Client,
    g: TagGeometry,
    gap: u32,
    border: u32,
    n: int,
    j: int,
) -> Client {
    if c.is_controlled && spec_last_state(c.states@) == ClientState::Maximized {
        Client {
            geo: ClientGeometry {
                x: g.paddings.left,
                y: g.paddings.top,
                w: g.avail_w,
                h: g.avail_h,
                border: 0u32,
                paddings: c.geo.paddings,
            },
            ..c
        }
    } else if c.is_controlled && spec_last_state(c.states@) == ClientState::Fullscreen {
        Client {
            geo: ClientGeometry {
                x: 0u32,
                y: 0u32,
                w: g.w,
                h: g.h,
                border: 0u32,
                paddings: c.geo.paddings,
            },
            ..c
        }
    } else if spec_tileable(c) {
        if n == 1 {
            Client {
                geo: ClientGeometry {
                    x: spec_min1(spec_cap32(gap + g.paddings.left)) as u32,
                    y: spec_min1(spec_cap32(gap + g.paddings.top)) as u32,
                    w: spec_sat_sub(g.avail_w as int, 2 * (border as int) + 2 * (gap as int))
                        as u32,
                    h: spec_sat_sub(g.avail_h as int, 2 * (border as int) + 2 * (gap as int))
                        as u32,
                    border,
                    paddings: c.geo.paddings,
                },
                ..c
            }
        } else {
            Client {
                geo: ClientGeometry {
                    x: spec_tile_x(g.avail_w as int, gap as int, j) as u32,
                    y: spec_tile_y(
                        g.avail_h as int,
                        g.paddings.top as int,
                        gap as int,
                        n,
                        j,
                    ) as u32,
                    w: spec_tile_w(g.avail_w as int, gap as int, border as int) as u32,
                    h: spec_tile_h(g.avail_h as int, gap as int, border as int, n, j) as u32,
                    border,
                    paddings: c.geo.paddings,
                },
                ..c
            }
        }
    } else {
        c
    }
}

/// `t1` is `t0` after one arrange step against the sticky paddings: the
/// same tag, each client placed by `spec_arranged_client`.
pub open spec fn arranged_from(t0: Tag, t1: Tag, cfg: Config, sticky: Paddings) -> bool {
    &&& t1.id == t0.id
    &&& t1.alias == t0.alias
    &&& t1.focused_cid == t0.focused_cid
    &&& t1.geo == t0.geo
    &&& t1.clients@.len() == t0.clients@.len()
    &&& forall|i: int|
        0 <= i < t0.clients@.len() ==> t1.clients@[i] == spec_arranged_client(
            t0.clients@[i],
            spec_merged_geometry(t0.geo, sticky),
            cfg.useless_gap,
            cfg.border.width,
            spec_tile_count(t0.clients@),
            spec_tile_index(t0.clients@, i),
        )
}

/// An arrange step moves no client in or out of the tag.
pub proof fn lemma_arranged_same_ids(t0: Tag, t1: Tag, cfg: Config, sticky: Paddings)
    requires
        arranged_from(t0, t1, cfg, sticky),
    ensures
        forall|id: u32| #[trigger]
            spec_has_id(t1.clients@, id) == spec_has_id(t0.clients@, id),
{
    assert(forall|i: int|
        0 <= i < t0.clients@.len() ==> (#[trigger] t1.clients@[i]).id == t0.clients@[i].id);
    assert forall|id: u32| #[trigger]
        spec_has_id(t1.clients@, id) == spec_has_id(t0.clients@, id) by {
        if spec_has_id(t0.clients@, id) {
            let i = choose|i: int| 0 <= i < t0.clients@.len() && t0.clients@[i].id == id;
            assert(t1.clients@[i].id == id);
        }
        if spec_has_id(t1.clients@, id) {
            let i = choose|i: int| 0 <= i < t1.clients@.len() && t1.clients@[i].id == id;
            assert(t0.clients@[i].id == id);
        }
    }
}

/// The window ID of the first controlled client, or `NO_CLIENT`.
pub open spec fn spec_first_controlled_id(cs: Seq<Client>) -> u32
    decreases cs.len(),
{
    if cs.len() == 0 {
        NO_CLIENT
    } else if cs[0].is_controlled {
        cs[0].id
    } else {
        spec_first_controlled_id(cs.drop_first())
    }
}

/// The first controlled client's ID is `NO_CLIENT` exactly when no client
/// is controlled, and otherwise names the first controlled client,
/// provided no client carries the reserved ID.
pub proof fn lemma_first_controlled_id(cs: Seq<Client>)
    requires
        forall|i: int| 0 <= i < cs.len() ==> (#[trigger] cs[i]).id != NO_CLIENT,
    ensures
        spec_first_controlled_id(cs) == NO_CLIENT <==> (forall|i: int|
            0 <= i < cs.len() ==> !(#[trigger] cs[i]).is_controlled),
        spec_first_controlled_id(cs) != NO_CLIENT ==> exists|i: int|
            {
                &&& 0 <= i < cs.len()
                &&& (#[trigger] cs[i]).is_controlled
                &&& cs[i].id == spec_first_controlled_id(cs)
                &&& forall|k: int| 0 <= k < i ==> !cs[k].is_controlled
            },
    decreases cs.len(),
{
    if cs.len() > 0 && !cs[0].is_controlled {
        let rest = cs.drop_first();
        assert(forall|i: int| 0 <= i < rest.len() ==> rest[i] == cs[i + 1]);
        lemma_first_controlled_id(rest);
        if spec_first_controlled_id(cs) == NO_CLIENT {
            assert(forall|i: int| 0 <= i < cs.len() ==> !(#[trigger] cs[i]).is_controlled) by {
                assert(forall|i: int|
                    1 <= i < cs.len() ==> cs[i] == rest[i - 1] && !rest[i - 1].is_controlled);
            }
        }
        if forall|i: int| 0 <= i < cs.len() ==> !(#[trigger] cs[i]).is_controlled {
            assert(forall|k: int| 0 <= k < rest.len() ==> !(#[trigger] rest[k]).is_controlled)
                by {
                assert(forall|k: int| 0 <= k < rest.len() ==> rest[k] == cs[k + 1]);
            }
        }
        if spec_first_controlled_id(rest) != NO_CLIENT {
            let i = choose|i: int|
                {
                    &&& 0 <= i < rest.len()
                    &&& (#[trigger] rest[i]).is_controlled
                    &&& rest[i].id == spec_first_controlled_id(rest)
                    &&& forall|k: int| 0 <= k < i ==> !rest[k].is_controlled
                };
            assert(cs[i + 1].is_controlled);
            assert(forall|k: int| 0 <= k < i + 1 ==> !cs[k].is_controlled) by {
                assert(forall|k: int| 1 <= k < i + 1 ==> rest[k - 1] == cs[k]);
            }
        }
    }
}

/// The layout arithmetic stays clear of its floors and caps: the gap is
/// real, half the available width and each stack slot leave room for the
/// gap and border on both sides, and the coordinate sums stay below the
/// 32-bit cap.
pub open spec fn spec_layout_fits(g: TagGeometry, gap: u32, border: u32, n: int) -> bool {
    &&& 1 <= gap
    &&& g.avail_w / 2 >= 2 * gap + 2 * border + 1
    &&& g.avail_h >= 2 * gap + 2 * border + 1
    &&& (n >= 2 ==> g.avail_h as int / (n - 1) >= 2 * gap + 2 * border + 1)
    &&& g.paddings.top + gap + g.avail_h <= 0xFFFF_FFFF
    &&& g.paddings.left + gap <= 0xFFFF_FFFF
    &&& g.avail_w / 2 + gap <= 0xFFFF_FFFF
}

/// Every rectangle the arrange step assigns to a tileable client, inflated
/// by its border, lies within the available area: right of x = 1, left of
/// the available width (widened to the left padding), and between the top
/// padding and the bottom of the available height.
pub proof fn lemma_arranged_tile_in_bounds(
    c: Client,
    g: TagGeometry,
    gap: u32,
    border: u32,
    n: int,
    j: int,
)
    requires
        spec_tileable(c),
        spec_layout_fits(g, gap, border, n),
        1 <= n,
        0 <= j < n,
    ensures
        ({
            let a = spec_arranged_client(c, g, gap, border, n, j);
            &&& 1 <= a.geo.x
            &&& a.geo.x + a.geo.w + 2 * a.geo.border <= g.paddings.left + g.avail_w
            &&& g.paddings.top < a.geo.y
            &&& a.geo.y + a.geo.h + 2 * a.geo.border <= g.paddings.top + g.avail_h
        }),
{
    let a = spec_arranged_client(c, g, gap, border, n, j);
    let aw = g.avail_w as int;
    let ah = g.avail_h as int;
    assert(aw / 2 * 2 <= aw && 0 <= aw / 2) by (nonlinear_arith)
        requires
            aw >= 0,
    ;
    if n == 1 {
        assert(a.geo.x == gap + g.paddings.left);
        assert(a.geo.y == gap + g.paddings.top);
        assert(a.geo.w == aw - 2 * border - 2 * gap);
        assert(a.geo.h == ah - 2 * border - 2 * gap);
    } else {
        let hpw = ah / (n - 1);
        assert(a.geo.w == aw / 2 - 2 * gap - 2 * border);
        if j == 0 {
            assert(a.geo.x == gap);
            assert(a.geo.y == g.paddings.top + gap);
            assert(a.geo.h == ah - 2 * border - 2 * gap);
        } else {
            assert(hpw * (n - 1) <= ah && 0 <= hpw) by (nonlinear_arith)
                requires
                    ah >= 0,
                    n >= 2,
                    hpw == ah / (n - 1),
            {
                vstd::arithmetic::div_mod::lemma_fundamental_div_mod(ah, n - 1);
            }
            assert(hpw * (j - 1) <= hpw * (n - 1) && hpw * j <= hpw * (n - 1) && 0 <= hpw * (j
                - 1) && hpw * (j - 1) + hpw == hpw * j) by (nonlinear_arith)
                requires
                    0 <= hpw,
                    1 <= j <= n - 1,
            ;
            assert(a.geo.y == hpw * (j - 1) + g.paddings.top + gap);
            assert(a.geo.x == aw / 2 + gap);
            if j == n - 1 {
                assert(a.geo.h == hpw - 2 * border - 2 * gap);
                assert(a.geo.y + a.geo.h + 2 * a.geo.border == hpw * (n - 1) + g.paddings.top
                    - gap + 2 * border - 2 * border + 2 * gap - 2 * gap);
            } else {
                assert(a.geo.h == hpw - border - gap);
                assert(hpw * j + hpw <= hpw * (n - 1)) by (nonlinear_arith)
                    requires
                        0 <= hpw,
                        j + 1 <= n - 1,
                ;
            }
        }
    }
}

/// Rectangles the arrange step assigns to two different tileable clients
/// do not overlap: the master column ends left of the stack column, and
/// earlier stack slots end above later ones.
pub proof fn lemma_arranged_tiles_disjoint(
    c1: Client,
    c2: Client,
    g: TagGeometry,
    gap: u32,
    border: u32,
    n: int,
    j1: int,
    j2: int,
)
    requires
        spec_tileable(c1),
        spec_tileable(c2),
        spec_layout_fits(g, gap, border, n),
        0 <= j1 < j2 < n,
    ensures
        ({
            let a1 = spec_arranged_client(c1, g, gap, border, n, j1);
            let a2 = spec_arranged_client(c2, g, gap, border, n, j2);
            (a1.geo.x + a1.geo.w <= a2.geo.x) || (a1.geo.y + a1.geo.h <= a2.geo.y)
        }),
{
    let a1 = spec_arranged_client(c1, g, gap, border, n, j1);
    let a2 = spec_arranged_client(c2, g, gap, border, n, j2);
    let aw = g.avail_w as int;
    let ah = g.avail_h as int;
    let hpw = ah / (n - 1);
    assert(0 <= hpw) by (nonlinear_arith)
        requires
            ah >= 0,
            n >= 2,
            hpw == ah / (n - 1),
    ;
    assert(hpw * (n - 1) <= ah) by (nonlinear_arith)
        requires
            n >= 2,
            hpw == ah / (n - 1),
            ah >= 0,
    {
        vstd::arithmetic::div_mod::lemma_fundamental_div_mod(ah, n - 1);
    }
    assert(hpw * (j2 - 1) <= hpw * (n - 1)) by (nonlinear_arith)
        requires
            0 <= hpw,
            j2 <= n - 1,
    ;
    if j1 == 0 {
        assert(aw / 2 * 2 <= aw && 0 <= aw / 2) by (nonlinear_arith)
            requires
                aw >= 0,
        ;
        assert(a1.geo.x + a1.geo.w <= a2.geo.x);
    } else {
        assert(hpw * (j1 - 1) + hpw == hpw * j1 && hpw * j1 <= hpw * (j2 - 1) && 0 <= hpw * (j1
            - 1)) by (nonlinear_arith)
            requires
                0 <= hpw,
                1 <= j1 <= j2 - 1,
        ;
        assert(a1.geo.y + a1.geo.h <= a2.geo.y);
    }
}

/// One configure request per client, in list order, from its geometry.
pub open spec fn configure_requests(cs: Seq<Client>) -> Seq<XRequest>
    decreases cs.len(),
{
    if cs.len() == 0 {
        Seq::empty()
    } else {
        configure_requests(cs.drop_last()).push(
            XRequest::Configure {
                window: cs.last().id,
                x: cs.last().geo.x,
                y: cs.last().geo.y,
                width: cs.last().geo.w,
                height: cs.last().geo.h,
                border: cs.last().geo.border,
            },
        )
    }
}

/// The first controlled client only depends on each client's ID and
/// control flag.
pub proof fn lemma_first_controlled_pointwise(a: Seq<Client>, b: Seq<Client>)
    requires
        a.len() == b.len(),
        forall|i: int|
            0 <= i < a.len() ==> (#[trigger] a[i]).id == b[i].id && a[i].is_controlled
                == b[i].is_controlled,
    ensures
        spec_first_controlled_id(a) == spec_first_controlled_id(b),
    decreases a.len(),
{
    if a.len() > 0 && !a[0].is_controlled {
        assert(forall|i: int|
            0 <= i < a.len() - 1 ==> (#[trigger] a.drop_first()[i]) == a[i + 1]);
        assert(forall|i: int|
            0 <= i < b.len() - 1 ==> (#[trigger] b.drop_first()[i]) == b[i + 1]);
        lemma_first_controlled_pointwise(a.drop_first(), b.drop_first());
    }
}

/// The client the cyclic walk lands on. A walk of zero names the focused
/// client; any other walk moves `i` positions through the visible
/// (non-Hidden) clients, wrapping at both ends, starting from `relative`
/// (or from the focused client when `relative` is `None`). `None` when the
/// starting point is absent or no visible client exists.
pub open spec fn spec_byidx_target(t: Tag, i: int, relative: Option<u32>) -> Option<u32> {
    if i == 0 {
        if spec_has_id(t.clients@, t.focused_cid) {
            Some(t.focused_cid)
        } else {
            None
        }
    } else {
        let vis = visible_ids(t.clients@);
        let anchor = if relative is Some {
            relative->0
        } else {
            t.focused_cid
        };
        if vis.contains(anchor) {
            Some(vis[crate::util::spec_emod(spec_pos_of(vis, anchor) + i, vis.len() as int)])
        } else {
            None
        }
    }
}

/// Walking the focus by `k` and then by `-k` returns to the client that
/// was focused before, whenever the walk starts from a focused client
/// that is visible (the visible set itself is untouched by focusing).
pub proof fn lemma_focus_byidx_roundtrip(t: Tag, k: int)
    requires
        t.wf(),
        t.focused_cid != NO_CLIENT,
        visible_ids(t.clients@).contains(t.focused_cid),
    ensures
        spec_byidx_target(t, k, None) is Some,
        ({
            let m = spec_byidx_target(t, k, None)->0;
            spec_byidx_target(Tag { focused_cid: m, ..t }, -k, None) == Some(t.focused_cid)
        }),
{
    let vis = visible_ids(t.clients@);
    let n = vis.len() as int;
    lemma_visible_ids_present(t.clients@);
    lemma_visible_ids_no_duplicates(t.clients@);
    lemma_pos_of(vis, t.focused_cid);
    let a = spec_pos_of(vis, t.focused_cid);
    if k == 0 {
        assert(spec_has_id(t.clients@, t.focused_cid)) by {
            assert(vis[a] == t.focused_cid);
        }
        let m = t.focused_cid;
        let t2 = Tag { focused_cid: m, ..t };
        assert(t2 == t);
    } else {
        assert(spec_byidx_target(t, k, None) is Some);
        let j = crate::util::spec_emod(a + k, n);
        vstd::arithmetic::div_mod::lemma_mod_bound(a + k, n);
        let m = vis[j];
        assert(spec_byidx_target(t, k, None) == Some(m));
        let t2 = Tag { focused_cid: m, ..t };
        assert(visible_ids(t2.clients@) == vis);
        assert(vis.contains(m)) by {
            assert(vis[j] == m);
        }
        lemma_pos_of(vis, m);
        let pm = spec_pos_of(vis, m);
        assert(pm == j) by {
            if pm < j {
                assert(vis[pm] == vis[j]);
                assert(false);
            } else if j < pm {
                assert(vis[j] == vis[pm]);
                assert(false);
            }
        }
        if -k == 0 {
        } else {
            let j2 = crate::util::spec_emod(j - k, n);
            assert(spec_byidx_target(t2, -k, None) == Some(vis[j2]));
            assert(j2 == a) by {
                vstd::arithmetic::div_mod::lemma_add_mod_noop_right(a + k, -k, n);
                assert(((a + k) + ((-k) % n)) % n == ((a + k) + (-k)) % n);
                vstd::arithmetic::div_mod::lemma_add_mod_noop(a + k, -k, n);
                assert((((a + k) % n) + ((-k) % n)) % n == ((a + k) + (-k)) % n);
                vstd::arithmetic::div_mod::lemma_add_mod_noop_right((a + k) % n, -k, n);
                assert((((a + k) % n) + ((-k) % n)) % n == (((a + k) % n) + (-k)) % n);
                assert((j - k) % n == (a + k - k) % n);
                vstd::arithmetic::div_mod::lemma_small_mod(a as nat, n as nat);
            }
        }
    }
}

impl Tag {
    /// An element-for-element recomputation of the aggregated paddings.
    fn recompute_paddings(&mut self)
        ensures
            final (self).clients@ == old(self).clients@,
            final (self).id == old(self).id,
            final (self).alias == old(self).alias,
            final (self).focused_cid == old(self).focused_cid,
            final (self).geo == spec_tag_geometry(
                old(self).geo.w,
                old(self).geo.h,
                spec_max_pads(old(self).clients@),
            ),
    {
        let mut pads = Paddings::zero();
        let mut k: usize = 0;
        while k < self.clients.len()
            invariant
                0 <= k <= self.clients@.len(),
                pads == spec_max_pads(self.clients@.take(k as int)),
                self.clients@ == old(self).clients@,
                self.id == old(self).id,
                self.alias == old(self).alias,
                self.focused_cid == old(self).focused_cid,
                self.geo == old(self).geo,
            decreases self.clients@.len() - k,
        {
            proof {
                let t = self.clients@.take(k + 1int);
                assert(t.drop_last() =~= self.clients@.take(k as int));
                assert(t.last() == self.clients@[k as int]);
            }
            pads = pads.merged_with(&self.clients[k].geo.paddings);
            k = k + 1;
        }
        proof {
            assert(self.clients@.take(self.clients@.len() as int) =~= self.clients@);
        }
        self.geo = TagGeometry::new(self.geo.w, self.geo.h, pads);
    }

    /// The client with window ID `id`, or `ClientNotFound(id)`.
    pub fn get_client(&self, id: u32) -> (r: Result<&Client, Error>)
        ensures
            r matches Ok(c) ==> exists|i: int|
                0 <= i < self.clients@.len() && self.clients@[i] == *c && c.id == id,
            r matches Err(e) ==> e matches Error::ClientNotFound(x) && x == id,
            r is Ok <==> self.spec_contains(id),
    {
        match self.position(id) {
            Some(i) => Ok(&self.clients[i]),
            None => Err(Error::ClientNotFound(id)),
        }
    }

    /// The focused client, or `ClientNotFound` carrying the focused ID.
    pub fn get_focused_client(&self) -> (r: Result<&Client, Error>)
        ensures
            r matches Ok(c) ==> exists|i: int|
                0 <= i < self.clients@.len() && self.clients@[i] == *c && c.id
                    == self.focused_cid,
            r matches Err(e) ==> e matches Error::ClientNotFound(x) && x == self.focused_cid,
            r is Ok <==> self.spec_contains(self.focused_cid),
    {
        self.get_client(self.focused_cid)
    }

    /// The first controlled client in the list: the next focus candidate.
    /// `ClientNotFound(0)` when the tag controls no client.
    pub fn get_first_controlled_client(&self) -> (r: Result<&Client, Error>)
        ensures
            r matches Ok(c) ==> exists|i: int|
                {
                    &&& 0 <= i < self.clients@.len()
                    &&& self.clients@[i] == *c
                    &&& c.is_controlled
                    &&& forall|k: int| 0 <= k < i ==> !self.clients@[k].is_controlled
                },
            r is Err ==> forall|k: int|
                0 <= k < self.clients@.len() ==> !(#[trigger] self.clients@[k]).is_controlled,
            r matches Err(e) ==> e matches Error::ClientNotFound(x) && x == 0,
    {
        let mut i: usize = 0;
        while i < self.clients.len()
            invariant
                0 <= i <= self.clients@.len(),
                forall|k: int| 0 <= k < i ==> !self.clients@[k].is_controlled,
            decreases self.clients@.len() - i,
        {
            if self.clients[i].is_controlled {
                return Ok(&self.clients[i]);
            }
            i = i + 1;
        }
        Err(Error::ClientNotFound(0))
    }

    /// Moves the focus to the client with window ID `wid`, when it exists
    /// and passes the control filter: the previously focused client's
    /// border fades to the normal color, the new one gets the active color
    /// and the input focus.
    fn focus_client_core(
        &mut self,
        wid: u32,
        only_controlled: bool,
        config: &Config,
        out: &mut Vec<XRequest>,
    ) -> (r: Option<bool>)
        requires
            old(self).wf(),
        ensures
            final (self).wf(),
            !old(self).spec_contains(wid) ==> r is None && *final (self) == *old(self) && final (
            out)@ == old(out)@,
            old(self).spec_contains(wid) ==> {
                let c = spec_client_by_id(old(self).clients@, wid);
                if only_controlled && !c.is_controlled {
                    &&& r == Some(false)
                    &&& *final (self) == *old(self)
                    &&& final (out)@ == old(out)@
                } else {
                    &&& r == Some(true)
                    &&& *final (self) == (Tag { focused_cid: wid, ..*old(self) })
                    &&& final (out)@ == old(out)@ + focus_requests(*old(self), wid, *config)
                }
            },
    {
        match self.position(wid) {
            None => None,
            Some(i) => {
                proof {
                    let j = choose|j: int|
                        0 <= j < self.clients@.len() && self.clients@[j].id == wid;
                    assert(self.clients@[j] == self.clients@[i as int]);
                }
                if only_controlled && !self.clients[i].is_controlled {
                    return Some(false);
                }
                let prev = self.focused_cid;
                match self.position(prev) {
                    Some(_) => {
                        out.push(
                            XRequest::SetBorderColor {
                                window: prev,
                                color: config.border.color_normal,
                            },
                        );
                    },
                    None => {
                    },
                }
                self.focused_cid = wid;
                out.push(XRequest::SetInputFocus(wid));
                out.push(
                    XRequest::SetBorderColor { window: wid, color: config.border.color_active },
                );
                proof {
                    assert(out@ =~= old(out)@ + focus_requests(*old(self), wid, *config));
                }
                Some(true)
            },
        }
    }

    /// Moves the focus to the client with window ID `wid`. `Some(true)` on
    /// success, `None` when no such client is managed here.
    pub fn focus_client(
        &mut self,
        wid: u32,
        config: &Config,
        out: &mut Vec<XRequest>,
    ) -> (r: Option<bool>)
        requires
            old(self).wf(),
        ensures
            final (self).wf(),
            !old(self).spec_contains(wid) ==> r is None && *final (self) == *old(self) && final (
            out)@ == old(out)@,
            old(self).spec_contains(wid) ==> {
                &&& r == Some(true)
                &&& *final (self) == (Tag { focused_cid: wid, ..*old(self) })
                &&& final (out)@ == old(out)@ + focus_requests(*old(self), wid, *config)
            },
    {
        self.focus_client_core(wid, false, config, out)
    }

    /// Like `focus_client`, but refuses (with `Some(false)`) a client the
    /// manager does not control: docks never take the focus.
    pub fn focus_client_if_controlled(
        &mut self,
        wid: u32,
        config: &Config,
        out: &mut Vec<XRequest>,
    ) -> (r: Option<bool>)
        requires
            old(self).wf(),
        ensures
            final (self).wf(),
            !old(self).spec_contains(wid) ==> r is None && *final (self) == *old(self) && final (
            out)@ == old(out)@,
            old(self).spec_contains(wid) ==> {
                let c = spec_client_by_id(old(self).clients@, wid);
                if !c.is_controlled {
                    &&& r == Some(false)
                    &&& *final (self) == *old(self)
                    &&& final (out)@ == old(out)@
                } else {
                    &&& r == Some(true)
                    &&& *final (self) == (Tag { focused_cid: wid, ..*old(self) })
                    &&& final (out)@ == old(out)@ + focus_requests(*old(self), wid, *config)
                }
            },
    {
        self.focus_client_core(wid, true, config, out)
    }

    /// The client a cyclic walk of `i` positions lands on; see
    /// `spec_byidx_target` for the walk.
    pub fn get_client_byidx(&self, i: i32, relative: Option<u32>) -> (r: Option<&Client>)
        requires
            self.wf(),
        ensures
            r matches Some(c) ==> spec_byidx_target(*self, i as int, relative) == Some(c.id)
                && self.spec_contains(c.id),
            r is None ==> spec_byidx_target(*self, i as int, relative) is None,
    {
        match self.byidx_target(i, relative) {
            None => None,
            Some(wid) => {
                match self.position(wid) {
                    Some(p) => Some(&self.clients[p]),
                    None => {
                        proof {
                            assert(false);
                        }
                        None
                    },
                }
            },
        }
    }

    /// The first position of `x` in `v`.
    fn find_in_ids(v: &Vec<u32>, x: u32) -> (r: Option<usize>)
        ensures
            r matches Some(i) ==> {
                &&& 0 <= i < v@.len()
                &&& v@[i as int] == x
                &&& forall|k: int| 0 <= k < i ==> v@[k] != x
            },
            r is None ==> !v@.contains(x),
    {
        let mut i: usize = 0;
        while i < v.len()
            invariant
                0 <= i <= v@.len(),
                forall|k: int| 0 <= k < i ==> v@[k] != x,
            decreases v@.len() - i,
        {
            if v[i] == x {
                return Some(i);
            }
            i = i + 1;
        }
        proof {
            if v@.contains(x) {
                let j = choose|j: int| 0 <= j < v@.len() && v@[j] == x;
                assert(false);
            }
        }
        None
    }

    /// The window ID the cyclic walk lands on.
    fn byidx_target(&self, i: i32, relative: Option<u32>) -> (r: Option<u32>)
        requires
            self.wf(),
        ensures
            r == spec_byidx_target(*self, i as int, relative),
            r matches Some(wid) ==> self.spec_contains(wid),
    {
        if i == 0 {
            return match self.position(self.focused_cid) {
                Some(_) => Some(self.focused_cid),
                None => None,
            };
        }

        // Collect the visible clients' IDs in list order.
        let mut vis: Vec<u32> = Vec::new();
        let mut k: usize = 0;
        while k < self.clients.len()
            invariant
                0 <= k <= self.clients@.len(),
                vis@ == visible_ids(self.clients@.take(k as int)),
            decreases self.clients@.len() - k,
        {
            proof {
                let t = self.clients@.take(k + 1int);
                assert(t.drop_last() =~= self.clients@.take(k as int));
                assert(t.last() == self.clients@[k as int]);
            }
            if self.clients[k].is_visible() {
                vis.push(self.clients[k].id);
            }
            k = k + 1;
        }
        proof {
            assert(self.clients@.take(self.clients@.len() as int) =~= self.clients@);
        }

        let anchor: u32 = match relative {
            Some(a) => a,
            None => self.focused_cid,
        };
        let ghost visg = vis@;

        match Self::find_in_ids(&vis, anchor) {
            None => {
                None
            },
            Some(p) => {
                proof {
                    assert(visg.contains(anchor)) by {
                        assert(visg[p as int] == anchor);
                    }
                    lemma_pos_of(visg, anchor);
                    assert(spec_pos_of(visg, anchor) == p as int);
                }
                let t = crate::util::cyclic_target(vis.len(), p, i);
                let wid = vis[t];
                proof {
                    lemma_visible_ids_present(self.clients@);
                    assert(spec_has_id(self.clients@, visg[t as int]));
                }
                Some(wid)
            },
        }
    }

    /// Walks the focus `idx` positions through the visible clients (see
    /// `spec_byidx_target`) and focuses the client it lands on. A walk of
    /// zero leaves the tag exactly as it was, apart from re-asserting the
    /// focus towards the server.
    pub fn focus_client_byidx(
        &mut self,
        idx: i32,
        relative: Option<u32>,
        config: &Config,
        out: &mut Vec<XRequest>,
    ) -> (r: Result<(), Error>)
        requires
            old(self).wf(),
        ensures
            final (self).wf(),
            spec_byidx_target(*old(self), idx as int, relative) is None ==> {
                &&& r matches Err(e) && e matches Error::ClientNotFound(x) && x == 0
                &&& *final (self) == *old(self)
                &&& final (out)@ == old(out)@
            },
            spec_byidx_target(*old(self), idx as int, relative) matches Some(wid) ==> {
                &&& r is Ok
                &&& *final (self) == (Tag { focused_cid: wid, ..*old(self) })
                &&& final (out)@ == old(out)@ + focus_requests(*old(self), wid, *config)
            },
            idx == 0 ==> *final (self) == *old(self),
    {
        let target = self.byidx_target(idx, relative);
        match target {
            None => Err(Error::ClientNotFound(0)),
            Some(wid) => {
                let res = self.focus_client(wid, config, out);
                proof {
                    if idx == 0 {
                        assert(wid == old(self).focused_cid);
                        assert(*self == (Tag { focused_cid: wid, ..*old(self) }));
                    }
                }
                Ok(())
            },
        }
    }

    /// Applies a state operation to the client with window ID `wid`:
    /// add, remove or toggle the state, with the matching property
    /// rewrite. `ClientNotFound` when the tag does not manage the window,
    /// `InvalidOperation` for an unknown selector.
    pub fn set_client_state(
        &mut self,
        wid: u32,
        state: ClientState,
        operation: crate::util::Operation,
        out: &mut Vec<XRequest>,
    ) -> (r: Result<(), Error>)
        requires
            old(self).wf(),
        ensures
            final (self).wf(),
            final (self).id == old(self).id,
            final (self).alias == old(self).alias,
            final (self).geo == old(self).geo,
            final (self).focused_cid == old(self).focused_cid,
            final (self).clients@.len() == old(self).clients@.len(),
            !old(self).spec_contains(wid) ==> {
                &&& r matches Err(e) && e matches Error::ClientNotFound(x) && x == wid
                &&& final (self).clients@ == old(self).clients@
                &&& final (out)@ == old(out)@
            },
            old(self).spec_contains(wid) ==> exists|i: int|
                #![trigger old(self).clients@[i]]
                {
                    let c0 = old(self).clients@[i];
                    &&& 0 <= i < old(self).clients@.len()
                    &&& c0.id == wid
                    &&& forall|k: int|
                        0 <= k < old(self).clients@.len() && k != i ==> final (self).clients@[k]
                            == old(self).clients@[k]
                    &&& crate::client::eq_except_states(c0, final (self).clients@[i])
                    &&& final (self).clients@[i].states@ == crate::client::state::states_after_op(
                        c0.states@,
                        state,
                        operation,
                    )
                    &&& crate::client::state::set_state_emits(
                        c0,
                        state,
                        operation,
                        old(out)@,
                        final (out)@,
                    )
                    &&& (operation == crate::util::Operation::Unknown ==> (r matches Err(e) && e
                        is InvalidOperation))
                    &&& (operation != crate::util::Operation::Unknown ==> r is Ok)
                },
    {
        let ghost orig = self.clients@;
        match self.position(wid) {
            None => Err(Error::ClientNotFound(wid)),
            Some(i) => {
                let mut c = self.clients.remove(i);
                let res = c.set_state(state, operation, out);
                self.clients.insert(i, c);
                proof {
                    assert(self.clients@ =~= orig.update(i as int, c));
                    if self.focused_cid != NO_CLIENT {
                        let w = choose|w: int|
                            0 <= w < orig.len() && orig[w].id == old(self).focused_cid;
                        assert(self.clients@[w].id == old(self).focused_cid);
                    }
                    lemma_max_pads_pointwise(orig, self.clients@);
                }
                res
            },
        }
    }

    /// Exchanges the positions of the two clients; `None` when either is
    /// absent.
    #[verifier::rlimit(100)]
    #[verifier::spinoff_prover]
    pub fn swap(&mut self, wid_i: u32, wid_j: u32) -> (r: Option<()>)
        requires
            old(self).wf(),
        ensures
            final (self).wf(),
            final (self).id == old(self).id,
            final (self).alias == old(self).alias,
            final (self).focused_cid == old(self).focused_cid,
            !(old(self).spec_contains(wid_i) && old(self).spec_contains(wid_j)) ==> {
                &&& r is None
                &&& *final (self) == *old(self)
            },
            old(self).spec_contains(wid_i) && old(self).spec_contains(wid_j) ==> {
                &&& r is Some
                &&& exists|i: int, j: int|
                    {
                        &&& 0 <= i < old(self).clients@.len()
                        &&& 0 <= j < old(self).clients@.len()
                        &&& old(self).clients@[i].id == wid_i
                        &&& old(self).clients@[j].id == wid_j
                        &&& final (self).clients@ == old(self).clients@.update(
                            i,
                            old(self).clients@[j],
                        ).update(j, old(self).clients@[i])
                    }
                &&& final (self).geo == spec_tag_geometry(
                    old(self).geo.w,
                    old(self).geo.h,
                    spec_max_pads(final (self).clients@),
                )
            },
    {
        let ghost orig = self.clients@;
        let pi = self.position(wid_i);
        let pj = self.position(wid_j);
        match (pi, pj) {
            (Some(i), Some(j)) => {
                if i != j {
                    let (a, b) = if i < j {
                        (i, j)
                    } else {
                        (j, i)
                    };
                    let cb = self.clients.remove(b);
                    let ca = self.clients.remove(a);
                    self.clients.insert(a, cb);
                    self.clients.insert(b, ca);
                    proof {
                        assert(self.clients@ =~= orig.update(a as int, orig[b as int]).update(
                            b as int,
                            orig[a as int],
                        ));
                        assert(self.clients@ =~= orig.update(i as int, orig[j as int]).update(
                            j as int,
                            orig[i as int],
                        ));
                    }
                    self.recompute_paddings();
                    proof {
                        let cur = self.clients@;
                        assert(forall|k: int|
                            0 <= k < cur.len() ==> cur[k] == orig[
                                if k == i as int {
                                    j as int
                                } else if k == j as int {
                                    i as int
                                } else {
                                    k
                                }]);
                        if old(self).focused_cid != NO_CLIENT {
                            let w = choose|w: int|
                                0 <= w < orig.len() && orig[w].id == old(self).focused_cid;
                            if w == i as int {
                                assert(cur[j as int].id == old(self).focused_cid);
                            } else if w == j as int {
                                assert(cur[i as int].id == old(self).focused_cid);
                            } else {
                                assert(cur[w].id == old(self).focused_cid);
                            }
                        }
                    }
                } else {
                    proof {
                        assert(self.clients@ =~= orig.update(i as int, orig[j as int]).update(
                            j as int,
                            orig[i as int],
                        ));
                    }
                }
                Some(())
            },
            _ => None,
        }
    }

    /// Maps every non-Hidden client of the tag.
    pub fn map(&self, out: &mut Vec<XRequest>)
        ensures
            final (out)@ == old(out)@ + map_requests(self.clients@),
    {
        let mut k: usize = 0;
        while k < self.clients.len()
            invariant
                0 <= k <= self.clients@.len(),
                out@ == old(out)@ + map_requests(self.clients@.take(k as int)),
            decreases self.clients@.len() - k,
        {
            proof {
                let t = self.clients@.take(k + 1int);
                assert(t.drop_last() =~= self.clients@.take(k as int));
                assert(t.last() == self.clients@[k as int]);
            }
            if self.clients[k].is_visible() {
                out.push(XRequest::MapWindow(self.clients[k].id));
                proof {
                    assert(out@ =~= old(out)@ + map_requests(self.clients@.take(k + 1int)));
                }
            }
            k = k + 1;
        }
        proof {
            assert(self.clients@.take(self.clients@.len() as int) =~= self.clients@);
        }
    }

    /// Lays the tag out against the merge of its own geometry and the
    /// sticky tag's paddings: every controlled Maximized or Fullscreen
    /// client is placed first, the tileable clients get the tile layout's
    /// rectangles, and one configure request per client is emitted, in
    /// list order.
    #[verifier::rlimit(100)]
    pub fn arrange(
        &mut self,
        layout: &LayoutTile,
        config: &Config,
        sticky_pads: Paddings,
        out: &mut Vec<XRequest>,
    )
        requires
            old(self).wf(),
        ensures
            final (self).wf(),
            arranged_from(*old(self), *final (self), *config, sticky_pads),
            final (out)@ == old(out)@ + configure_requests(final (self).clients@),
    {
        let g = TagGeometry::new(
            self.geo.w,
            self.geo.h,
            self.geo.paddings.merged_with(&sticky_pads),
        );
        let ghost orig = self.clients@;
        let ghost gap = config.useless_gap;
        let ghost bw = config.border.width;

        // Count the tileable clients.
        let mut n: usize = 0;
        let mut i: usize = 0;
        while i < self.clients.len()
            invariant
                0 <= i <= orig.len(),
                self.clients@ == orig,
                n as int == spec_tile_count(orig.take(i as int)),
                n <= i,
            decreases orig.len() - i,
        {
            proof {
                let t = orig.take(i + 1int);
                assert(t.drop_last() =~= orig.take(i as int));
                assert(t.last() == orig[i as int]);
            }
            if self.clients[i].is_controlled() && self.clients[i].last_state()
                == ClientState::Tile {
                n = n + 1;
            }
            i = i + 1;
        }
        proof {
            assert(orig.take(orig.len() as int) =~= orig);
        }

        // Place every client.
        let mut j: usize = 0;
        let mut i: usize = 0;
        while i < self.clients.len()
            invariant
                0 <= i <= orig.len(),
                self.clients@.len() == orig.len(),
                n as int == spec_tile_count(orig),
                j as int == spec_tile_index(orig, i as int),
                j <= i,
                g == spec_merged_geometry(old(self).geo, sticky_pads),
                forall|k: int|
                    0 <= k < i ==> self.clients@[k] == spec_arranged_client(
                        orig[k],
                        g,
                        gap,
                        bw,
                        n as int,
                        spec_tile_index(orig, k),
                    ),
                forall|k: int| i <= k < orig.len() ==> self.clients@[k] == orig[k],
                self.id == old(self).id,
                self.alias == old(self).alias,
                self.geo == old(self).geo,
                self.focused_cid == old(self).focused_cid,
                gap == config.useless_gap,
                bw == config.border.width,
            decreases orig.len() - i,
        {
            let ghost pre = self.clients@;
            let mut c = self.clients.remove(i);
            proof {
                assert(c == orig[i as int]);
                let t = orig.take(i + 1int);
                assert(t.drop_last() =~= orig.take(i as int));
                assert(t.last() == orig[i as int]);
                lemma_tile_count_bounds(orig, i + 1int);
            }
            let controlled = c.is_controlled();
            let ls = c.last_state();
            if controlled && ls == ClientState::Maximized {
                c.geo.border = 0;
                c.geo.w = g.avail_w;
                c.geo.h = g.avail_h;
                c.geo.x = g.paddings.left;
                c.geo.y = g.paddings.top;
            } else if controlled && ls == ClientState::Fullscreen {
                c.geo.border = 0;
                c.geo.w = g.w;
                c.geo.h = g.h;
                c.geo.x = 0;
                c.geo.y = 0;
            } else if controlled && ls == ClientState::Tile {
                c.geo.border = config.border.width;
                if n == 1 {
                    c.geo.x = min1(cap_add(config.useless_gap as u64, g.paddings.left as u64));
                    c.geo.w = sat_sub(
                        g.avail_w,
                        2 * (config.border.width as u64) + 2 * (config.useless_gap as u64),
                    );
                    c.geo.y = min1(cap_add(config.useless_gap as u64, g.paddings.top as u64));
                    c.geo.h = sat_sub(
                        g.avail_h,
                        2 * (config.border.width as u64) + 2 * (config.useless_gap as u64),
                    );
                } else {
                    let (x, y, w, h) = layout.tile_rectangle(
                        &g,
                        config.useless_gap,
                        config.border.width,
                        n,
                        j,
                    );
                    c.geo.x = x;
                    c.geo.y = y;
                    c.geo.w = w;
                    c.geo.h = h;
                }
                j = j + 1;
            }
            self.clients.insert(i, c);
            proof {
                assert(self.clients@ =~= pre.update(i as int, c));
            }
            i = i + 1;
        }
        proof {
            assert(orig.take(orig.len() as int) =~= orig);
            // The arrangement moves no client and changes no ID, state or
            // padding, so the tag's invariants survive.
            assert(forall|k: int|
                0 <= k < orig.len() ==> (#[trigger] self.clients@[k]).id == orig[k].id
                    && self.clients@[k].states == orig[k].states
                    && self.clients@[k].geo.paddings == orig[k].geo.paddings
                    && self.clients@[k].wm_pid == orig[k].wm_pid);
            lemma_max_pads_pointwise(orig, self.clients@);
            if old(self).focused_cid != NO_CLIENT {
                let w = choose|w: int|
                    0 <= w < orig.len() && orig[w].id == old(self).focused_cid;
                assert(self.clients@[w].id == old(self).focused_cid);
            }
        }

        // Issue one configure request per client.
        let mut k: usize = 0;
        while k < self.clients.len()
            invariant
                0 <= k <= self.clients@.len(),
                out@ == old(out)@ + configure_requests(self.clients@.take(k as int)),
                self.clients@.len() == orig.len(),
            decreases self.clients@.len() - k,
        {
            proof {
                let t = self.clients@.take(k + 1int);
                assert(t.drop_last() =~= self.clients@.take(k as int));
                assert(t.last() == self.clients@[k as int]);
            }
            let geo = self.clients[k].geo;
            out.push(
                XRequest::Configure {
                    window: self.clients[k].id,
                    x: geo.x,
                    y: geo.y,
                    width: geo.w,
                    height: geo.h,
                    border: geo.border,
                },
            );
            proof {
                assert(out@ =~= old(out)@ + configure_requests(self.clients@.take(k + 1int)));
            }
            k = k + 1;
        }
        proof {
            assert(self.clients@.take(self.clients@.len() as int) =~= self.clients@);
        }
    }

    /// Unmaps every non-Hidden client of the tag.
    pub fn unmap(&self, out: &mut Vec<XRequest>)
        ensures
            final (out)@ == old(out)@ + unmap_requests(self.clients@),
    {
        let mut k: usize = 0;
        while k < self.clients.len()
            invariant
                0 <= k <= self.clients@.len(),
                out@ == old(out)@ + unmap_requests(self.clients@.take(k as int)),
            decreases self.clients@.len() - k,
        {
            proof {
                let t = self.clients@.take(k + 1int);
                assert(t.drop_last() =~= self.clients@.take(k as int));
                assert(t.last() == self.clients@[k as int]);
            }
            if self.clients[k].is_visible() {
                out.push(XRequest::UnmapWindow(self.clients[k].id));
                proof {
                    assert(out@ =~= old(out)@ + unmap_requests(self.clients@.take(k + 1int)));
                }
            }
            k = k + 1;
        }
        proof {
            assert(self.clients@.take(self.clients@.len() as int) =~= self.clients@);
        }
    }
}

} // verus!
