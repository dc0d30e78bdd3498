//! The multiplexer's side of the session: which of its clients are remote,
//! and under which id the session knows each.

use vstd::prelude::*;
use std::collections::HashMap;
use crate::client_state::ClientRenderState;
use crate::session::{RemoteSession, RenderUpdate};
use crate::style_table::StyleTable;

verus! {

broadcast use vstd::std_specs::hash::group_hash_axioms;

/// The id that the multiplexer gives a client.
pub type ClientId = u16;

/// A terminal's size in rows and columns.
#[derive(Debug, Clone, Copy, PartialEq, Eq, Structural)]
pub struct Size {
    pub rows: usize,
    pub cols: usize,
}

/// The render window that a remote client gets.
pub const REMOTE_WINDOW_SIZE: u32 = 4;

pub struct RemoteManager {
    session: RemoteSession,
    style_table: StyleTable,
    client_mapping: HashMap<ClientId, u64>,
    next_remote_id: u64,
    cols: usize,
    rows: usize,
}

impl RemoteManager {
    /// The session.
    pub closed spec fn spec_session(&self) -> RemoteSession {
        self.session
    }

    /// The style table that the multiplexer's adapter interns into.
    pub closed spec fn spec_style_table(&self) -> StyleTable {
        self.style_table
    }

    /// The remote id of each remote client of the multiplexer.
    pub closed spec fn mapping(&self) -> Map<ClientId, u64> {
        self.client_mapping@
    }

    /// The remote id that the next client gets.
    pub closed spec fn next_id(&self) -> u64 {
        self.next_remote_id
    }

    /// The screen's columns and rows.
    pub closed spec fn spec_dimensions(&self) -> (usize, usize) {
        (self.cols, self.rows)
    }

    pub fn new(cols: usize, rows: usize) -> (m: RemoteManager)
        ensures
            m.spec_session().is_fresh(cols, rows),
            m.spec_style_table().wf(),
            m.spec_style_table()@.len() == 1,
            m.mapping() == Map::<ClientId, u64>::empty(),
            m.next_id() == 1,
            m.spec_dimensions() == (cols, rows),
    {
        RemoteManager {
            session: RemoteSession::new(cols, rows),
            style_table: StyleTable::new(),
            client_mapping: HashMap::new(),
            next_remote_id: 1,
            cols,
            rows,
        }
    }

    /// The render window for a terminal of the given size.
    fn compute_window_size(_size: &Size) -> (w: u32)
        ensures
            w == REMOTE_WINDOW_SIZE,
    {
        REMOTE_WINDOW_SIZE
    }

    /// Registers a remote client and answers its remote id. A client that
    /// was registered already is detached first and gets a new remote id.
    pub fn add_client(&mut self, zellij_id: ClientId, size: Size) -> (remote_id: u64)
        requires
            old(self).next_id() < u64::MAX,
        ensures
            remote_id == old(self).next_id(),
            final(self).next_id() == old(self).next_id() + 1,
            final(self).mapping() == old(self).mapping().insert(zellij_id, remote_id),
            final(self).spec_dimensions() == old(self).spec_dimensions(),
            final(self).spec_style_table() == old(self).spec_style_table(),
            final(self).spec_session().clients@.contains_key(remote_id),
            final(self).spec_session().clients@[remote_id]@ == ClientRenderState::new_model(REMOTE_WINDOW_SIZE),
            final(self).spec_session().clients@.dom() == (if old(self).mapping().contains_key(zellij_id) {
                old(self).spec_session().clients@.dom().remove(old(self).mapping()[zellij_id])
            } else {
                old(self).spec_session().clients@.dom()
            }).insert(remote_id),
            final(self).spec_session().input_receivers@.dom() == (if old(self).mapping().contains_key(zellij_id) {
                old(self).spec_session().input_receivers@.dom().remove(old(self).mapping()[zellij_id])
            } else {
                old(self).spec_session().input_receivers@.dom()
            }).insert(remote_id),
            final(self).spec_session().input_receivers@[remote_id]@ == (crate::input::ReceiverModel {
                last_processed_seq: 0,
                pending_rtt_sample: None,
            }),
            final(self).spec_session().lease_manager@.state == (if old(self).mapping().contains_key(zellij_id)
                && old(self).spec_session().lease_manager@.controller_is(old(self).mapping()[zellij_id]) {
                crate::lease::LeaseState::Expired { previous_owner: old(self).mapping()[zellij_id] }
            } else {
                old(self).spec_session().lease_manager@.state
            }),
            final(self).spec_session().lease_manager@.next_lease_id == old(self).spec_session().lease_manager@.next_lease_id,
            final(self).spec_session().frame_store == old(self).spec_session().frame_store,
            final(self).spec_session().state_history == old(self).spec_session().state_history,
            final(self).spec_session().session_id == old(self).spec_session().session_id,
    {
        match self.client_mapping.remove(&zellij_id) {
            Some(old_remote_id) => {
                self.session.remove_client(old_remote_id);
            },
            None => {},
        }
        let remote_id = self.next_remote_id;
        self.next_remote_id += 1;
        self.client_mapping.insert(zellij_id, remote_id);
        let window_size = Self::compute_window_size(&size);
        self.session.add_client(remote_id, window_size);
        assert(self.client_mapping@ =~= old(self).client_mapping@.insert(zellij_id, remote_id));
        remote_id
    }

    /// Detaches a remote client, if `zellij_id` is one.
    pub fn remove_client(&mut self, zellij_id: ClientId)
        ensures
            final(self).mapping() == old(self).mapping().remove(zellij_id),
            final(self).next_id() == old(self).next_id(),
            final(self).spec_dimensions() == old(self).spec_dimensions(),
            final(self).spec_style_table() == old(self).spec_style_table(),
            old(self).mapping().contains_key(zellij_id) ==> final(self).spec_session().clients@ == old(self).spec_session().clients@.remove(old(self).mapping()[zellij_id]),
            !old(self).mapping().contains_key(zellij_id) ==> final(self).spec_session() == old(self).spec_session(),
    {
        match self.client_mapping.remove(&zellij_id) {
            Some(remote_id) => {
                self.session.remove_client(remote_id);
            },
            None => {},
        }
    }

    pub fn get_remote_id(&self, zellij_id: ClientId) -> (r: Option<u64>)
        ensures
            r == (if self.mapping().contains_key(zellij_id) {
                Some(self.mapping()[zellij_id])
            } else {
                None
            }),
    {
        match self.client_mapping.get(&zellij_id) {
            Some(id) => Some(*id),
            None => None,
        }
    }

    pub fn is_remote_client(&self, zellij_id: ClientId) -> (b: bool)
        ensures
            b == self.mapping().contains_key(zellij_id),
    {
        self.client_mapping.contains_key(&zellij_id)
    }

    pub fn session_mut(&mut self) -> (s: &mut RemoteSession)
        ensures
            *s == old(self).spec_session(),
            final(self).spec_session() == *final(s),
            final(self).mapping() == old(self).mapping(),
            final(self).next_id() == old(self).next_id(),
            final(self).spec_dimensions() == old(self).spec_dimensions(),
            final(self).spec_style_table() == old(self).spec_style_table(),
    {
        &mut self.session
    }

    pub fn session(&self) -> (s: &RemoteSession)
        ensures
            *s == self.spec_session(),
    {
        &self.session
    }

    pub fn style_table_mut(&mut self) -> (t: &mut StyleTable)
        ensures
            *t == old(self).spec_style_table(),
            final(self).spec_style_table() == *final(t),
            final(self).spec_session() == old(self).spec_session(),
            final(self).mapping() == old(self).mapping(),
            final(self).next_id() == old(self).next_id(),
            final(self).spec_dimensions() == old(self).spec_dimensions(),
    {
        &mut self.style_table
    }

    pub fn style_table(&self) -> (t: &StyleTable)
        ensures
            *t == self.spec_style_table(),
    {
        &self.style_table
    }

    /// What goes next to the remote client that the multiplexer knows as
    /// `zellij_id`; nothing for a client that is not remote.
    pub fn get_render_update(&mut self, zellij_id: ClientId) -> (r: Option<RenderUpdate>)
        ensures
            final(self).mapping() == old(self).mapping(),
            final(self).next_id() == old(self).next_id(),
            final(self).spec_dimensions() == old(self).spec_dimensions(),
            final(self).spec_style_table() == old(self).spec_style_table(),
            final(self).spec_session().same_but_clients(&old(self).spec_session()),
            !old(self).mapping().contains_key(zellij_id) ==> r.is_none() && final(self).spec_session() == old(self).spec_session(),
            old(self).mapping().contains_key(zellij_id) ==> {
                let remote_id = old(self).mapping()[zellij_id];
                &&& r.is_some() == old(self).spec_session().clients@.contains_key(remote_id)
                &&& r.is_some() ==> RemoteSession::update_matches(
                    r.unwrap(),
                    old(self).spec_session().clients@[remote_id]@,
                    final(self).spec_session().clients@[remote_id]@,
                    old(self).spec_session().frame_store.frame()@,
                    old(self).spec_session().frame_store.state(),
                    old(self).spec_session().style_table@,
                    crate::session::watermark_of(
                        old(self).spec_session().lease_manager@,
                        old(self).spec_session().input_receivers@,
                    ),
                )
            },
    {
        match self.get_remote_id(zellij_id) {
            Some(remote_id) => self.session.get_render_update(remote_id),
            None => None,
        }
    }

    /// How many remote clients the multiplexer has.
    pub fn client_count(&self) -> (n: usize)
        ensures
            n == self.mapping().len(),
    {
        self.client_mapping.len()
    }

    /// The screen's columns and rows.
    pub fn dimensions(&self) -> (d: (usize, usize))
        ensures
            d == self.spec_dimensions(),
    {
        (self.cols, self.rows)
    }

    /// Gives the screen a new size. Every row of the new screen counts as
    /// changed.
    pub fn resize(&mut self, cols: usize, rows: usize)
        ensures
            final(self).spec_dimensions() == (cols, rows),
            final(self).mapping() == old(self).mapping(),
            final(self).next_id() == old(self).next_id(),
            final(self).spec_style_table() == old(self).spec_style_table(),
            final(self).spec_session().clients == old(self).spec_session().clients,
            final(self).spec_session().frame_store.frame().cols == cols,
            final(self).spec_session().frame_store.frame().rows@.len() == rows,
            final(self).spec_session().frame_store.frame().wf(),
            final(self).spec_session().frame_store.frame().cursor == old(self).spec_session().frame_store.frame().cursor,
            forall|i: int|
                0 <= i < rows ==> (#[trigger] final(self).spec_session().frame_store.frame().rows@[i])@ == (if i
                    < old(self).spec_session().frame_store.frame().rows@.len() {
                    crate::frame::widened(
                        old(self).spec_session().frame_store.frame().rows@[i]@,
                        cols as nat,
                    )
                } else {
                    crate::frame::blank_row(cols as nat)
                }),
            final(self).spec_session().frame_store.state() == old(self).spec_session().frame_store.state(),
            final(self).spec_session().frame_store.dirty() == old(self).spec_session().frame_store.dirty().union(
                Set::new(|i: usize| i < rows),
            ),
    {
        self.cols = cols;
        self.rows = rows;
        self.session.frame_store.resize(cols, rows);
    }
}

} // verus!
