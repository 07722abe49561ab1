//! The screen owns the tag list. The last tag is always the sticky tag,
//! whose clients overlay every view; the others are the normal virtual
//! desktops, numbered from zero. View switching, moving the focused client
//! between tags, and the client-list advertisement live here.

use vstd::prelude::*;

use crate::client::Client;
use crate::config::Config;
use crate::errors::Error;
use crate::layout::LayoutTile;
use crate::requests::{is_set_client_list, is_set_desktop_names, XRequest};
use crate::client::geometry::spec_pad_max;
use crate::tag::{
    arranged_from, configure_requests, lemma_arranged_same_ids, lemma_first_controlled_id,
    lemma_first_controlled_pointwise, map_requests, spec_arranged_client,
    spec_first_controlled_id, spec_has_id,
    spec_merged_geometry, spec_tag_geometry, spec_tile_count, spec_tile_index, unmap_requests,
    Tag, NO_CLIENT,
};

verus! {

/// The desktop number EWMH reserves for "all desktops": the sticky tag's
/// ID.
pub const STICKY_TAG_ID: u32 = 0xFFFF_FFFF;

/// Total size of the managed screen, in pixels.
#[derive(Clone, Copy, PartialEq, Eq, Structural, Debug)]
pub struct ScreenGeometry {
    pub width: u32,
    pub height: u32,
}

/// The window IDs of a tag's clients, in list order.
pub open spec fn client_ids_of(cs: Seq<Client>) -> Seq<u32>
    decreases cs.len(),
{
    if cs.len() == 0 {
        Seq::empty()
    } else {
        client_ids_of(cs.drop_last()).push(cs.last().id)
    }
}

/// The window IDs of every client on every tag, tag by tag.
pub open spec fn all_client_ids(tags: Seq<Tag>) -> Seq<u32>
    decreases tags.len(),
{
    if tags.len() == 0 {
        Seq::empty()
    } else {
        all_client_ids(tags.drop_last()) + client_ids_of(tags.last().clients@)
    }
}

/// `post` is `pre` after the focused client of tag `src` moved to tag
/// `dest`: the client leaves `src` (whose focus falls back to its first
/// controlled client, or to none), arrives at the front of `dest` (and is
/// focused there), and both tags are laid out anew. `stickyp` below names
/// the sticky paddings both arrange steps see, also when `src` or `dest`
/// is the sticky tag itself.
pub open spec fn move_focused_post(pre: Screen, post: Screen, src: u32, dest: u32) -> bool {
    let si = pre.spec_tag_index(src);
    let di = pre.spec_tag_index(dest);
    let s0 = pre.tags@[si];
    let d0 = pre.tags@[di];
    &&& post.tags@.len() == pre.tags@.len()
    &&& post.focused_tag_id == pre.focused_tag_id
    &&& post.config == pre.config
    &&& post.geo == pre.geo
    &&& forall|k: int|
        0 <= k < pre.tags@.len() && k != si && k != di ==> post.tags@[k] == pre.tags@[k]
    &&& exists|p: int|
        {
            &&& 0 <= p < s0.clients@.len()
            &&& s0.clients@[p].id == s0.focused_cid
            &&& {
                let moved = s0.clients@[p];
                let scs = s0.clients@.remove(p);
                let dcs = seq![moved] + d0.clients@;
                let sgeo2 = spec_tag_geometry(
                    s0.geo.w,
                    s0.geo.h,
                    crate::tag::spec_max_pads(scs),
                );
                let dgeo2 = spec_tag_geometry(
                    d0.geo.w,
                    d0.geo.h,
                    spec_pad_max(d0.geo.paddings, moved.geo.paddings),
                );
                let stickyp = if di == pre.tags@.len() - 1 {
                    dgeo2.paddings
                } else if si == pre.tags@.len() - 1 {
                    sgeo2.paddings
                } else {
                    pre.tags@.last().geo.paddings
                };
                let s3 = post.tags@[si];
                let d3 = post.tags@[di];
                &&& s3.id == s0.id
                &&& s3.alias == s0.alias
                &&& s3.focused_cid == spec_first_controlled_id(scs)
                &&& s3.geo == sgeo2
                &&& s3.clients@.len() == scs.len()
                &&& forall|i: int|
                    0 <= i < scs.len() ==> s3.clients@[i] == spec_arranged_client(
                        scs[i],
                        spec_merged_geometry(sgeo2, stickyp),
                        pre.config.useless_gap,
                        pre.config.border.width,
                        spec_tile_count(scs),
                        spec_tile_index(scs, i),
                    )
                &&& d3.id == d0.id
                &&& d3.alias == d0.alias
                &&& d3.focused_cid == moved.id
                &&& d3.geo == dgeo2
                &&& d3.clients@.len() == dcs.len()
                &&& forall|i: int|
                    0 <= i < dcs.len() ==> d3.clients@[i] == spec_arranged_client(
                        dcs[i],
                        spec_merged_geometry(dgeo2, stickyp),
                        pre.config.useless_gap,
                        pre.config.border.width,
                        spec_tile_count(dcs),
                        spec_tile_index(dcs, i),
                    )
            }
        }
}

/// Moving the focused client from `src` to `dest` and then back restores
/// both tags' focused client, provided the destination's focus already sat
/// on its first controlled client (or nowhere, while it controlled none):
/// the forward move leaves it exactly there again.
pub proof fn lemma_move_focused_roundtrip(
    s0: Screen,
    s1: Screen,
    s2: Screen,
    src: u32,
    dest: u32,
)
    requires
        s0.wf(),
        s1.wf(),
        src != dest,
        s0.spec_has_tag(src),
        s0.spec_has_tag(dest),
        move_focused_post(s0, s1, src, dest),
        move_focused_post(s1, s2, dest, src),
        s0.tags@[s0.spec_tag_index(dest)].focused_cid == spec_first_controlled_id(
            s0.tags@[s0.spec_tag_index(dest)].clients@,
        ),
    ensures
        s2.tags@[s0.spec_tag_index(src)].focused_cid == s0.tags@[s0.spec_tag_index(
            src,
        )].focused_cid,
        s2.tags@[s0.spec_tag_index(dest)].focused_cid == s0.tags@[s0.spec_tag_index(
            dest,
        )].focused_cid,
{
    let si = s0.spec_tag_index(src);
    let di = s0.spec_tag_index(dest);
    let s_tag0 = s0.tags@[si];
    let d_tag0 = s0.tags@[di];
    assert(si != di);
    assert(s1.spec_tag_index(dest) == di && s1.spec_tag_index(src) == si);

    let p1 = choose|p: int|
        {
            &&& 0 <= p < s_tag0.clients@.len()
            &&& s_tag0.clients@[p].id == s_tag0.focused_cid
            &&& {
                let moved = s_tag0.clients@[p];
                let dcs = seq![moved] + d_tag0.clients@;
                let d3 = s1.tags@[di];
                &&& d3.focused_cid == moved.id
                &&& d3.clients@.len() == dcs.len()
            }
        };
    let moved = s_tag0.clients@[p1];
    let d1 = s1.tags@[di];
    let dcs = seq![moved] + d_tag0.clients@;
    assert(d1.focused_cid == moved.id && d1.clients@.len() == dcs.len());
    // The arranged destination still carries the moved client at the
    // front, with its ID and control flag intact.
    assert(forall|i: int|
        0 <= i < dcs.len() ==> (#[trigger] d1.clients@[i]).id == dcs[i].id
            && d1.clients@[i].is_controlled == dcs[i].is_controlled);
    assert(d1.clients@[0].id == moved.id);

    // The second move takes the client back out of the destination.
    let p2 = choose|p: int|
        {
            &&& 0 <= p < d1.clients@.len()
            &&& d1.clients@[p].id == d1.focused_cid
            &&& {
                let moved2 = d1.clients@[p];
                let scs2 = d1.clients@.remove(p);
                let s3 = s2.tags@[si];
                let d4 = s2.tags@[di];
                &&& s3.focused_cid == moved2.id
                &&& d4.focused_cid == spec_first_controlled_id(scs2)
            }
        };
    assert(p2 == 0) by {
        if p2 != 0 {
            assert(d1.clients@[p2].id == moved.id && d1.clients@[0].id == moved.id);
        }
    }
    assert(s2.tags@[si].focused_cid == moved.id);
    assert(moved.id == s_tag0.focused_cid);

    // The tail of the arranged destination matches the earlier
    // destination client for client, so the fallback focus is the same.
    let scs2 = d1.clients@.remove(0);
    assert(scs2.len() == d_tag0.clients@.len());
    assert(forall|i: int|
        0 <= i < scs2.len() ==> (#[trigger] scs2[i]).id == d_tag0.clients@[i].id && scs2[i].is_controlled
            == d_tag0.clients@[i].is_controlled) by {
        assert(forall|i: int| 0 <= i < scs2.len() ==> #[trigger] scs2[i] == d1.clients@[i + 1]);
        assert(forall|i: int|
            0 <= i < d_tag0.clients@.len() ==> (#[trigger] dcs[i + 1]) == d_tag0.clients@[i]);
    }
    lemma_first_controlled_pointwise(scs2, d_tag0.clients@);
    assert(s2.tags@[di].focused_cid == spec_first_controlled_id(d_tag0.clients@));
}

/// `view_tag(id)` took `pre` with the pending requests `old_out` to
/// `post` with `new_out`: a no-op when `id` is already the focused tag, a
/// rejection when `id` names no normal tag, and otherwise the full
/// transition, with its exact request sequence.
pub open spec fn view_tag_post(
    pre: Screen,
    post: Screen,
    id: u32,
    old_out: Seq<XRequest>,
    new_out: Seq<XRequest>,
) -> bool {
    &&& post.id == pre.id
    &&& post.root == pre.root
    &&& post.geo == pre.geo
    &&& post.config == pre.config
    &&& post.tags@.len() == pre.tags@.len()
    &&& (pre.spec_has_tag(pre.focused_tag_id) && pre.focused_tag_id == id) ==> {
        &&& post == pre
        &&& new_out == old_out
    }
    &&& (!(pre.spec_has_tag(pre.focused_tag_id) && pre.focused_tag_id == id)
        && !pre.spec_is_normal_tag(id)) ==> {
        &&& post == pre
        &&& new_out == old_out
    }
    &&& (!(pre.spec_has_tag(pre.focused_tag_id) && pre.focused_tag_id == id)
        && pre.spec_is_normal_tag(id)) ==> {
        let dest0 = pre.tags@[id as int];
        let fi = pre.spec_tag_index(pre.focused_tag_id);
        &&& post.focused_tag_id == id
        &&& forall|k: int|
            0 <= k < pre.tags@.len() && k != id as int ==> post.tags@[k] == pre.tags@[k]
        &&& arranged_from(
            dest0,
            post.tags@[id as int],
            pre.config,
            pre.tags@.last().geo.paddings,
        )
        &&& new_out == old_out + map_requests(dest0.clients@) + (if spec_has_id(
            dest0.clients@,
            dest0.focused_cid,
        ) {
            seq![XRequest::SetInputFocus(dest0.focused_cid)]
        } else {
            seq![XRequest::DisableInputFocus]
        }) + (if pre.spec_has_tag(pre.focused_tag_id) {
            unmap_requests(pre.tags@[fi].clients@)
        } else {
            Seq::empty()
        }) + configure_requests(post.tags@[id as int].clients@) + seq![
            XRequest::SetCurrentDesktop(id),
        ]
    }
}

/// `view_tag(id)` succeeds exactly when `id` is already focused or names a
/// normal tag.
pub open spec fn view_tag_ok(pre: Screen, id: u32) -> bool {
    (pre.spec_has_tag(pre.focused_tag_id) && pre.focused_tag_id == id)
        || pre.spec_is_normal_tag(id)
}

/// One X screen: its tag list (the sticky tag last), the focused tag, and
/// the configuration.
pub struct Screen {
    /// The X screen number.
    pub id: i32,
    /// The root window of the screen.
    pub root: u32,
    /// Total size of the screen.
    pub geo: ScreenGeometry,
    /// The immutable configuration the manager was started with.
    pub config: Config,
    /// ID of the currently focused tag. The ID may point at no tag;
    /// lookups then fail with `TagNotFound`.
    pub focused_tag_id: u32,
    /// The tags. Never empty: at least one normal tag, and the sticky tag
    /// as the last element.
    pub tags: Vec<Tag>,
}

impl Screen {
    /// The screen's invariants: tag `i` is desktop `i`, the sticky tag
    /// closes the list, every tag is well-formed, and no window is managed
    /// by two tags.
    pub open spec fn wf(self) -> bool {
        &&& 2 <= self.tags@.len()
        &&& self.tags@.len() <= 0x1_0000_0000
        &&& forall|i: int| 0 <= i < self.tags@.len() - 1 ==> (#[trigger] self.tags@[i]).id == i
        &&& self.tags@.last().id == STICKY_TAG_ID
        &&& forall|i: int| 0 <= i < self.tags@.len() ==> (#[trigger] self.tags@[i]).wf()
        &&& forall|i: int, k: int, id: u32|
            #![trigger spec_has_id(self.tags@[i].clients@, id), spec_has_id(self.tags@[k].clients@, id)]
            0 <= i < k < self.tags@.len() ==> !(spec_has_id(self.tags@[i].clients@, id)
                && spec_has_id(self.tags@[k].clients@, id))
    }

    /// `id` names a normal (viewable) tag.
    pub open spec fn spec_is_normal_tag(self, id: u32) -> bool {
        (id as int) < self.tags@.len() - 1
    }

    /// `id` names a tag of this screen.
    pub open spec fn spec_has_tag(self, id: u32) -> bool {
        self.spec_is_normal_tag(id) || id == STICKY_TAG_ID
    }

    /// The position of tag `id` in the tag list, under `wf`.
    pub open spec fn spec_tag_index(self, id: u32) -> int {
        if id == STICKY_TAG_ID {
            self.tags@.len() - 1
        } else {
            id as int
        }
    }

    /// Some tag of the screen manages a client with window ID `wid`.
    pub open spec fn spec_manages(self, wid: u32) -> bool {
        exists|i: int| 0 <= i < self.tags@.len() && spec_has_id(self.tags@[i].clients@, wid)
    }

    /// Builds the screen: one tag per configured alias (a single tag named
    /// "1" when no alias is configured), then the sticky tag, which covers
    /// no pixels of its own. Advertises the number of desktops and their
    /// names.
    pub fn new(config: Config, id: i32, root: u32, width: u32, height: u32, out: &mut Vec<
        XRequest,
    >) -> (r: Screen)
        requires
            config.tags@.len() <= 0xFFFF_FFFF,
        ensures
            r.wf(),
            r.id == id,
            r.root == root,
            r.geo == (ScreenGeometry { width, height }),
            r.focused_tag_id == 0,
            r.config == config,
            r.tags@.len() == (if config.tags@.len() == 0 {
                2int
            } else {
                config.tags@.len() + 1int
            }),
            forall|i: int|
                0 <= i < r.tags@.len() - 1 ==> {
                    let t = #[trigger] r.tags@[i];
                    &&& t.id == i
                    &&& t.focused_cid == NO_CLIENT
                    &&& t.clients@.len() == 0
                    &&& t.geo == spec_tag_geometry(
                        width,
                        height,
                        crate::client::Paddings { top: 0u32, bottom: 0u32, left: 0u32, right: 0u32 },
                    )
                },
            config.tags@.len() > 0 ==> forall|i: int|
                0 <= i < r.tags@.len() - 1 ==> (#[trigger] r.tags@[i]).alias@
                    == config.tags@[i]@,
            r.tags@.last().id == STICKY_TAG_ID,
            r.tags@.last().clients@.len() == 0,
            r.tags@.last().focused_cid == NO_CLIENT,
            final (out)@.len() == old(out)@.len() + 2,
            final (out)@.take(old(out)@.len() as int) == old(out)@,
            final (out)@[old(out)@.len() as int] == XRequest::SetNumberOfDesktops(
                (r.tags@.len() - 1) as u32,
            ),
            is_set_desktop_names(
                final (out)@.last(),
                Seq::new((r.tags@.len() - 1) as nat, |i: int| r.tags@[i].alias@),
            ),
    {
        let mut tags: Vec<Tag> = Vec::new();
        let mut names: Vec<String> = Vec::new();

        if config.tags.len() == 0 {
            tags.push(Tag::new(0, String::from_str("1"), width, height));
            names.push(String::from_str("1"));
        } else {
            let mut i: usize = 0;
            while i < config.tags.len()
                invariant
                    0 <= i <= config.tags@.len(),
                    config.tags@.len() <= 0xFFFF_FFFF,
                    tags@.len() == i,
                    names@.len() == i,
                    forall|k: int|
                        0 <= k < i ==> {
                            let t = #[trigger] tags@[k];
                            &&& t.id == k
                            &&& t.focused_cid == NO_CLIENT
                            &&& t.clients@.len() == 0
                            &&& t.wf()
                            &&& t.geo == spec_tag_geometry(
                                width,
                                height,
                                crate::client::Paddings {
                                    top: 0u32,
                                    bottom: 0u32,
                                    left: 0u32,
                                    right: 0u32,
                                },
                            )
                            &&& t.alias@ == config.tags@[k]@
                        },
                    forall|k: int| 0 <= k < i ==> (#[trigger] names@[k])@ == config.tags@[k]@,
                decreases config.tags@.len() - i,
            {
                let alias = config.tags[i].clone();
                let alias2 = config.tags[i].clone();
                tags.push(Tag::new(i as u32, alias, width, height));
                names.push(alias2);
                i = i + 1;
            }
        }

        let count = tags.len();
        out.push(XRequest::SetNumberOfDesktops(count as u32));
        out.push(XRequest::SetDesktopNames(names));
        tags.push(Tag::new(STICKY_TAG_ID, String::from_str("sticky_clients"), 0, 0));

        let r = Screen {
            id,
            root,
            geo: ScreenGeometry { width, height },
            config,
            focused_tag_id: 0,
            tags,
        };
        proof {
            assert(out@.take(old(out)@.len() as int) =~= old(out)@);
            assert(r.tags@.last() == r.tags@[r.tags@.len() - 1]);
            let names_view = Seq::new((r.tags@.len() - 1) as nat, |i: int| r.tags@[i].alias@);
            assert(out@.last() matches XRequest::SetDesktopNames(list) && list@.map_values(
                |s: String| s@,
            ) =~= names_view);
        }
        r
    }

    /// True iff some tag has ID `tag_id`.
    pub fn contains_tag(&self, tag_id: u32) -> (r: bool)
        ensures
            r == exists|i: int| 0 <= i < self.tags@.len() && (#[trigger] self.tags@[i]).id
                == tag_id,
    {
        let mut i: usize = 0;
        while i < self.tags.len()
            invariant
                0 <= i <= self.tags@.len(),
                forall|k: int| 0 <= k < i ==> (#[trigger] self.tags@[k]).id != tag_id,
            decreases self.tags@.len() - i,
        {
            if self.tags[i].id == tag_id {
                return true;
            }
            i = i + 1;
        }
        false
    }

    /// The position of tag `id` in the tag list.
    pub(crate) fn tag_index(&self, id: u32) -> (r: Option<usize>)
        requires
            self.wf(),
        ensures
            r matches Some(i) ==> {
                &&& self.spec_has_tag(id)
                &&& i as int == self.spec_tag_index(id)
                &&& self.tags@[i as int].id == id
            },
            r is None ==> !self.spec_has_tag(id),
    {
        let mut i: usize = 0;
        while i < self.tags.len()
            invariant
                self.wf(),
                0 <= i <= self.tags@.len(),
                forall|k: int| 0 <= k < i ==> (#[trigger] self.tags@[k]).id != id,
            decreases self.tags@.len() - i,
        {
            if self.tags[i].id == id {
                proof {
                    if i < self.tags@.len() - 1 {
                        assert(self.tags@[i as int].id == i);
                    } else {
                        assert(self.tags@[i as int] == self.tags@.last());
                        if self.spec_is_normal_tag(id) {
                            assert(self.tags@[id as int].id == id);
                            assert(false);
                        }
                    }
                }
                return Some(i);
            }
            i = i + 1;
        }
        proof {
            if self.spec_is_normal_tag(id) {
                assert(self.tags@[id as int].id == id);
                assert(false);
            }
            if id == STICKY_TAG_ID {
                assert(self.tags@[self.tags@.len() - 1] == self.tags@.last());
                assert(false);
            }
        }
        None
    }

    /// The sticky tag: always the last of the list.
    pub fn sticky_tag(&self) -> (r: &Tag)
        requires
            self.tags@.len() >= 1,
        ensures
            *r == self.tags@.last(),
    {
        &self.tags[self.tags.len() - 1]
    }

    /// The tag with ID `id`, or `TagNotFound(id)`.
    pub fn get_tag(&self, id: u32) -> (r: Result<&Tag, Error>)
        requires
            self.wf(),
        ensures
            self.spec_has_tag(id) ==> (r matches Ok(t) && *t == self.tags@[self.spec_tag_index(
                id,
            )]),
            !self.spec_has_tag(id) ==> (r matches Err(e) && e matches Error::TagNotFound(x) && x
                == id),
    {
        match self.tag_index(id) {
            Some(i) => Ok(&self.tags[i]),
            None => Err(Error::TagNotFound(id)),
        }
    }

    /// The focused tag, or `TagNotFound` carrying the focused tag ID.
    pub fn get_focused_tag(&self) -> (r: Result<&Tag, Error>)
        requires
            self.wf(),
        ensures
            self.spec_has_tag(self.focused_tag_id) ==> (r matches Ok(t) && *t
                == self.tags@[self.spec_tag_index(self.focused_tag_id)]),
            !self.spec_has_tag(self.focused_tag_id) ==> (r matches Err(e) && e
                matches Error::TagNotFound(x) && x == self.focused_tag_id),
    {
        self.get_tag(self.focused_tag_id)
    }

    /// Lays out the tag with ID `id` against the sticky tag's paddings.
    pub fn arrange_tag(&mut self, id: u32, out: &mut Vec<XRequest>) -> (r: Result<(), Error>)
        requires
            old(self).wf(),
        ensures
            final (self).wf(),
            final (self).id == old(self).id,
            final (self).root == old(self).root,
            final (self).geo == old(self).geo,
            final (self).config == old(self).config,
            final (self).focused_tag_id == old(self).focused_tag_id,
            final (self).tags@.len() == old(self).tags@.len(),
            !old(self).spec_has_tag(id) ==> {
                &&& r matches Err(e) && e matches Error::TagNotFound(x) && x == id
                &&& final (self).tags@ == old(self).tags@
                &&& final (out)@ == old(out)@
            },
            old(self).spec_has_tag(id) ==> {
                let ti = old(self).spec_tag_index(id);
                &&& r is Ok
                &&& forall|k: int|
                    0 <= k < old(self).tags@.len() && k != ti ==> final (self).tags@[k] == old(
                        self,
                    ).tags@[k]
                &&& arranged_from(
                    old(self).tags@[ti],
                    final (self).tags@[ti],
                    old(self).config,
                    old(self).tags@.last().geo.paddings,
                )
                &&& final (out)@ == old(out)@ + configure_requests(final (self).tags@[ti].clients@)
            },
    {
        let last = self.tags.len() - 1;
        let spads = self.tags[last].geo.paddings;
        match self.tag_index(id) {
            None => Err(Error::TagNotFound(id)),
            Some(ti) => {
                let mut t = self.tags.remove(ti);
                t.arrange(&LayoutTile::new(), &self.config, spads, out);
                self.tags.insert(ti, t);
                proof {
                    assert(self.tags@ =~= old(self).tags@.update(ti as int, t));
                    lemma_arranged_same_ids(
                        old(self).tags@[ti as int],
                        t,
                        old(self).config,
                        old(self).tags@.last().geo.paddings,
                    );
                    assert(self.tags@.last() == self.tags@[self.tags@.len() - 1]);
                    if ti as int == self.tags@.len() - 1 {
                        assert(t.id == old(self).tags@[ti as int].id);
                    }
                }
                Ok(())
            },
        }
    }

    /// Focuses and shows the tag with ID `id`: maps its clients, hands the
    /// input focus to its focused client (or back to the root when it has
    /// none), hides the previously focused tag's visible clients, lays the
    /// destination out, and advertises the new current desktop. Viewing
    /// the tag that is already focused changes nothing at all. The sticky
    /// tag is never subject to view switching.
    pub fn view_tag(&mut self, id: u32, out: &mut Vec<XRequest>) -> (r: Result<(), Error>)
        requires
            old(self).wf(),
        ensures
            final (self).wf(),
            view_tag_post(*old(self), *final (self), id, old(out)@, final (out)@),
            view_tag_ok(*old(self), id) ==> r is Ok,
            !view_tag_ok(*old(self), id) ==> (r matches Err(e) && e matches Error::TagNotFound(
                x,
            ) && x == id),
    {
        let focused_found = self.tag_index(self.focused_tag_id);
        if focused_found.is_some() && self.focused_tag_id == id {
            return Ok(());
        }
        if id == STICKY_TAG_ID {
            return Err(Error::TagNotFound(id));
        }
        let di = match self.tag_index(id) {
            None => {
                return Err(Error::TagNotFound(id));
            },
            Some(i) => i,
        };

        self.tags[di].map(out);

        match self.tags[di].get_focused_client() {
            Ok(c) => {
                let cid = c.id;
                out.push(XRequest::SetInputFocus(cid));
            },
            Err(_) => {
                out.push(XRequest::DisableInputFocus);
            },
        }

        match focused_found {
            Some(fi) => {
                self.tags[fi].unmap(out);
            },
            None => {
            },
        }

        let arranged = self.arrange_tag(id, out);
        proof {
            assert(arranged is Ok);
        }

        out.push(XRequest::SetCurrentDesktop(id));
        self.focused_tag_id = id;

        proof {
            let dest0 = old(self).tags@[id as int];
            let fi = old(self).spec_tag_index(old(self).focused_tag_id);
            assert(out@ =~= old(out)@ + map_requests(dest0.clients@) + (if spec_has_id(
                dest0.clients@,
                dest0.focused_cid,
            ) {
                seq![XRequest::SetInputFocus(dest0.focused_cid)]
            } else {
                seq![XRequest::DisableInputFocus]
            }) + (if old(self).spec_has_tag(old(self).focused_tag_id) {
                unmap_requests(old(self).tags@[fi].clients@)
            } else {
                Seq::empty()
            }) + configure_requests(self.tags@[id as int].clients@) + seq![
                XRequest::SetCurrentDesktop(id),
            ]);
        }
        Ok(())
    }

    /// Moves the focused client of tag `src` to tag `dest`: hides it,
    /// refocuses `src` on its most recent controlled client (or drops the
    /// focus), pushes it to the front of `dest` and focuses it there,
    /// updates its desktop property, and lays both tags out anew.
    #[verifier::rlimit(100)]
    #[verifier::spinoff_prover]
    pub fn move_focused_client(&mut self, src: u32, dest: u32, out: &mut Vec<XRequest>) -> (r:
        Result<(), Error>)
        requires
            old(self).wf(),
            src != dest,
            old(self).spec_has_tag(src) && old(self).spec_has_tag(dest) ==> spec_has_id(
                old(self).tags@[old(self).spec_tag_index(src)].clients@,
                old(self).tags@[old(self).spec_tag_index(src)].focused_cid,
            ),
        ensures
            final (self).wf(),
            final (self).id == old(self).id,
            final (self).root == old(self).root,
            final (self).geo == old(self).geo,
            final (self).config == old(self).config,
            final (self).focused_tag_id == old(self).focused_tag_id,
            final (self).tags@.len() == old(self).tags@.len(),
            !old(self).spec_has_tag(src) ==> {
                &&& r matches Err(e) && e matches Error::TagNotFound(x) && x == src
                &&& *final (self) == *old(self)
                &&& final (out)@ == old(out)@
            },
            old(self).spec_has_tag(src) && !old(self).spec_has_tag(dest) ==> {
                &&& r matches Err(e) && e matches Error::TagNotFound(x) && x == dest
                &&& *final (self) == *old(self)
                &&& final (out)@ == old(out)@
            },
            old(self).spec_has_tag(src) && old(self).spec_has_tag(dest) ==> {
                &&& r is Ok
                &&& move_focused_post(*old(self), *final (self), src, dest)
            },
            old(self).spec_has_tag(src) && old(self).spec_has_tag(dest) ==> exists|p: int|
                #![trigger old(self).tags@[old(self).spec_tag_index(src)].clients@[p]]
                {
                    let s0 = old(self).tags@[old(self).spec_tag_index(src)];
                    let d0 = old(self).tags@[old(self).spec_tag_index(dest)];
                    &&& 0 <= p < s0.clients@.len()
                    &&& s0.clients@[p].id == s0.focused_cid
                    &&& {
                        let moved = s0.clients@[p];
                        let scs = s0.clients@.remove(p);
                        let dcs = seq![moved] + d0.clients@;
                        let newf = spec_first_controlled_id(scs);
                        final (out)@ == old(out)@ + seq![XRequest::UnmapWindow(moved.id)] + (
                        if newf != NO_CLIENT {
                            seq![
                                XRequest::SetInputFocus(newf),
                                XRequest::SetBorderColor {
                                    window: newf,
                                    color: old(self).config.border.color_active,
                                },
                            ]
                        } else {
                            seq![XRequest::DisableInputFocus]
                        }) + (if spec_has_id(dcs, d0.focused_cid) {
                            seq![
                                XRequest::SetBorderColor {
                                    window: d0.focused_cid,
                                    color: old(self).config.border.color_normal,
                                },
                            ]
                        } else {
                            Seq::empty()
                        }) + seq![
                            XRequest::SetInputFocus(moved.id),
                            XRequest::SetBorderColor {
                                window: moved.id,
                                color: old(self).config.border.color_active,
                            },
                        ] + seq![XRequest::SetWindowDesktop { window: moved.id, desktop: dest }]
                            + configure_requests(
                            final (self).tags@[old(self).spec_tag_index(dest)].clients@,
                        ) + configure_requests(
                            final (self).tags@[old(self).spec_tag_index(src)].clients@,
                        )
                    }
                },
    {
        let si = match self.tag_index(src) {
            None => {
                return Err(Error::TagNotFound(src));
            },
            Some(i) => i,
        };
        let di = match self.tag_index(dest) {
            None => {
                return Err(Error::TagNotFound(dest));
            },
            Some(i) => i,
        };
        proof {
            assert(si != di);
        }

        let ghost s0 = old(self).tags@[si as int];
        let ghost d0 = old(self).tags@[di as int];

        // Pop the focused client out of the source tag; it disappears from
        // the screen until the destination is arranged.
        let mut s = self.tags.remove(si);
        let fc = s.focused_cid;
        out.push(XRequest::UnmapWindow(fc));
        let client = match s.take_client(fc) {
            Some(c) => c,
            None => {
                proof {
                    assert(false);
                }
                self.tags.insert(si, s);
                return Err(Error::ClientNotFound(fc));
            },
        };
        let cid = client.id;
        let ghost p = choose|i: int|
            {
                &&& 0 <= i < s0.clients@.len()
                &&& s0.clients@[i].id == fc
                &&& client == s0.clients@[i]
                &&& s.clients@ == s0.clients@.remove(i)
            };

        // Refocus the source on its most recent controlled client, if any.
        let newf = match s.get_first_controlled_client() {
            Ok(c) => Some(c.id),
            Err(_) => None,
        };
        proof {
            assert(forall|i: int|
                0 <= i < s.clients@.len() ==> (#[trigger] s.clients@[i]).id != NO_CLIENT);
            lemma_first_controlled_id(s.clients@);
            if newf is Some {
                let e = choose|i: int|
                    {
                        &&& 0 <= i < s.clients@.len()
                        &&& (#[trigger] s.clients@[i]).is_controlled
                        &&& s.clients@[i].id == newf->0
                        &&& forall|k: int| 0 <= k < i ==> !s.clients@[k].is_controlled
                    };
                assert(spec_first_controlled_id(s.clients@) != NO_CLIENT);
                let e2 = choose|i: int|
                    {
                        &&& 0 <= i < s.clients@.len()
                        &&& (#[trigger] s.clients@[i]).is_controlled
                        &&& s.clients@[i].id == spec_first_controlled_id(s.clients@)
                        &&& forall|k: int| 0 <= k < i ==> !s.clients@[k].is_controlled
                    };
                assert(e == e2);
            }
        }
        match newf {
            Some(nf) => {
                let res = s.focus_client(nf, &self.config, out);
                proof {
                    assert(res == Some(true));
                }
            },
            None => {
                out.push(XRequest::DisableInputFocus);
            },
        }
        self.tags.insert(si, s);
        proof {
            assert(self.tags@ =~= old(self).tags@.update(si as int, s));
        }

        // Push the client to the front of the destination and focus it.
        let mut d = self.tags.remove(di);
        proof {
            assert(d == d0);
            assert(spec_has_id(s0.clients@, cid)) by {
                assert(s0.clients@[p].id == cid);
            }
            if si < di {
                assert(!(spec_has_id(old(self).tags@[si as int].clients@, cid) && spec_has_id(
                    old(self).tags@[di as int].clients@,
                    cid,
                )));
            } else {
                assert(!(spec_has_id(old(self).tags@[di as int].clients@, cid) && spec_has_id(
                    old(self).tags@[si as int].clients@,
                    cid,
                )));
            }
        }
        d.manage_client(client);
        let fres = d.focus_client(cid, &self.config, out);
        proof {
            assert(d.spec_contains(cid)) by {
                assert(d.clients@[0].id == cid);
            }
        }
        out.push(XRequest::SetWindowDesktop { window: cid, desktop: dest });
        self.tags.insert(di, d);
        proof {
            assert(self.tags@ =~= old(self).tags@.update(si as int, s).update(di as int, d));
            // The intermediate screen is well-formed: the moved client has
            // left the source before it reaches the destination.
            assert forall|i: int, k: int, id: u32|
                0 <= i < k < self.tags@.len() implies !(spec_has_id(self.tags@[i].clients@, id)
                && spec_has_id(self.tags@[k].clients@, id)) by {
                if spec_has_id(self.tags@[i].clients@, id) && spec_has_id(
                    self.tags@[k].clients@,
                    id,
                ) {
                    let old_i = old(self).tags@[i];
                    let old_k = old(self).tags@[k];
                    if i != si as int && i != di as int && k != si as int && k != di as int {
                        assert(false);
                    } else {
                        // Trace membership in the two mutated tags back to
                        // the tags they came from.
                        if i == si as int || k == si as int {
                            assert(forall|q: int|
                                0 <= q < s.clients@.len() ==> #[trigger] s.clients@[q]
                                    == s0.clients@.remove(p)[q]);
                            if spec_has_id(s.clients@, id) {
                                let q = choose|q: int|
                                    0 <= q < s.clients@.len() && s.clients@[q].id == id;
                                if q < p {
                                    assert(s0.clients@[q].id == id);
                                } else {
                                    assert(s0.clients@[q + 1].id == id);
                                }
                                assert(spec_has_id(s0.clients@, id));
                            }
                        }
                        if i == di as int || k == di as int {
                            if spec_has_id(d.clients@, id) {
                                let q = choose|q: int|
                                    0 <= q < d.clients@.len() && d.clients@[q].id == id;
                                if q == 0 {
                                    assert(id == cid);
                                } else {
                                    assert(d.clients@[q] == d0.clients@[q - 1]);
                                    assert(spec_has_id(d0.clients@, id));
                                }
                            }
                        }
                        if id == cid {
                            assert(!spec_has_id(s.clients@, cid));
                            assert(i == di as int || k == di as int);
                            let other = if i == di as int {
                                k
                            } else {
                                i
                            };
                            assert(other != di as int && other != si as int);
                            assert(spec_has_id(old(self).tags@[other].clients@, cid));
                            if other < si as int {
                                assert(false);
                            } else {
                                assert(false);
                            }
                        } else {
                            assert(spec_has_id(old_i.clients@, id) && spec_has_id(
                                old_k.clients@,
                                id,
                            ));
                            assert(false);
                        }
                    }
                }
            }
        }

        // Lay both tags out anew: the destination first, then the source.
        let a1 = self.arrange_tag(dest, out);
        let a2 = self.arrange_tag(src, out);
        proof {
            assert(a1 is Ok && a2 is Ok);
            let moved = s0.clients@[p];
            let scs = s0.clients@.remove(p);
            let dcs = seq![moved] + d0.clients@;
            let nf = spec_first_controlled_id(scs);
            assert(!spec_has_id(scs, NO_CLIENT)) by {
                if spec_has_id(scs, NO_CLIENT) {
                    let q = choose|q: int| 0 <= q < scs.len() && scs[q].id == NO_CLIENT;
                    assert(scs[q] == s.clients@[q]);
                }
            }
            assert(out@ =~= old(out)@ + seq![XRequest::UnmapWindow(moved.id)] + (if nf
                != NO_CLIENT {
                seq![
                    XRequest::SetInputFocus(nf),
                    XRequest::SetBorderColor {
                        window: nf,
                        color: old(self).config.border.color_active,
                    },
                ]
            } else {
                seq![XRequest::DisableInputFocus]
            }) + (if spec_has_id(dcs, d0.focused_cid) {
                seq![
                    XRequest::SetBorderColor {
                        window: d0.focused_cid,
                        color: old(self).config.border.color_normal,
                    },
                ]
            } else {
                Seq::empty()
            }) + seq![
                XRequest::SetInputFocus(moved.id),
                XRequest::SetBorderColor {
                    window: moved.id,
                    color: old(self).config.border.color_active,
                },
            ] + seq![XRequest::SetWindowDesktop { window: moved.id, desktop: dest }]
                + configure_requests(self.tags@[di as int].clients@) + configure_requests(
                self.tags@[si as int].clients@,
            ));
        }
        Ok(())
    }

    /// True iff some tag of the screen manages a client with window ID
    /// `wid`.
    pub fn manages_client(&self, wid: u32) -> (r: bool)
        ensures
            r == self.spec_manages(wid),
    {
        let mut i: usize = 0;
        while i < self.tags.len()
            invariant
                0 <= i <= self.tags@.len(),
                forall|k: int| 0 <= k < i ==> !spec_has_id(#[trigger] self.tags@[k].clients@, wid),
            decreases self.tags@.len() - i,
        {
            if self.tags[i].contains_client(wid) {
                return true;
            }
            i = i + 1;
        }
        false
    }

    /// Rewrites `_NET_CLIENT_LIST` from every tag's clients.
    pub fn refresh(&self, out: &mut Vec<XRequest>)
        ensures
            final (out)@.len() == old(out)@.len() + 1,
            final (out)@.take(old(out)@.len() as int) == old(out)@,
            is_set_client_list(final (out)@.last(), all_client_ids(self.tags@)),
    {
        let mut ids: Vec<u32> = Vec::new();
        let mut t: usize = 0;
        while t < self.tags.len()
            invariant
                0 <= t <= self.tags@.len(),
                ids@ == all_client_ids(self.tags@.take(t as int)),
            decreases self.tags@.len() - t,
        {
            proof {
                let s = self.tags@.take(t + 1int);
                assert(s.drop_last() =~= self.tags@.take(t as int));
                assert(s.last() == self.tags@[t as int]);
            }
            let ghost before = ids@;
            let mut k: usize = 0;
            let tag = &self.tags[t];
            while k < tag.clients.len()
                invariant
                    0 <= k <= tag.clients@.len(),
                    *tag == self.tags@[t as int],
                    ids@ == before + client_ids_of(tag.clients@.take(k as int)),
                decreases tag.clients@.len() - k,
            {
                proof {
                    let s = tag.clients@.take(k + 1int);
                    assert(s.drop_last() =~= tag.clients@.take(k as int));
                    assert(s.last() == tag.clients@[k as int]);
                }
                ids.push(tag.clients[k].id);
                proof {
                    assert(ids@ =~= before + client_ids_of(tag.clients@.take(k + 1int)));
                }
                k = k + 1;
            }
            proof {
                assert(tag.clients@.take(tag.clients@.len() as int) =~= tag.clients@);
                assert(ids@ =~= all_client_ids(self.tags@.take(t + 1int)));
            }
            t = t + 1;
        }
        proof {
            assert(self.tags@.take(self.tags@.len() as int) =~= self.tags@);
        }
        out.push(XRequest::SetClientList(ids));
        proof {
            assert(out@.take(old(out)@.len() as int) =~= old(out)@);
        }
    }
}

} // verus!
