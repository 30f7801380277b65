//! The filesystem manager: what a mount needs, held until the mount takes
//! it.

use vstd::prelude::*;
use std::rc::Rc;
use crate::leader_local::LeaderLocal;
use crate::mgr_impl::MetaServiceMgrImpl;

verus! {

pub struct MountOptions {
    /// Where to mount.
    pub mnt: String,
}

pub struct FilesystemMgr {
    meta_service_mgr: Rc<MetaServiceMgrImpl>,
    leader_mgr: Option<LeaderLocal>,
}

impl FilesystemMgr {
    /// Whether the manager still holds its leader.
    pub closed spec fn has_leader(&self) -> bool {
        self.leader_mgr is Some
    }

    /// The leader that the manager holds.
    pub closed spec fn leader(&self) -> LeaderLocal
        recommends
            self.has_leader(),
    {
        self.leader_mgr->0
    }

    /// The client of the metadata service.
    pub closed spec fn meta(&self) -> MetaServiceMgrImpl {
        *self.meta_service_mgr
    }

    pub fn create(meta_service_mgr: Rc<MetaServiceMgrImpl>, leader_mgr: LeaderLocal) -> (fs:
        FilesystemMgr)
        ensures
            fs.has_leader(),
            fs.leader() == leader_mgr,
            fs.meta() == *meta_service_mgr,
    {
        FilesystemMgr { meta_service_mgr, leader_mgr: Some(leader_mgr) }
    }

    /// Hands out what a mount needs: the client of the metadata service
    /// and the leader. The leader is handed out once; a second mount gets
    /// `None` and does nothing.
    pub fn mount(&mut self) -> (parts: Option<(Rc<MetaServiceMgrImpl>, LeaderLocal)>)
        ensures
            !final(self).has_leader(),
            final(self).meta() == old(self).meta(),
            match parts {
                Some((meta, leader)) => old(self).has_leader() && leader == old(self).leader()
                    && *meta == old(self).meta(),
                None => !old(self).has_leader(),
            },
    {
        match self.leader_mgr.take() {
            Some(leader) => Some((self.meta_service_mgr.clone(), leader)),
            None => None,
        }
    }
}

} // verus!
