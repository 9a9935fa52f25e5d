//! Middleware for the MENU conversation: the board handles no menus, so every
//! menu request is refused.

use vstd::prelude::*;

use crate::context::Context;
use crate::data_frame::DataFrame;
use crate::database::Database;
use crate::id_tag::IdTag;
use crate::id_users::IdUser;
use crate::raw_frame::RawFrame;
use crate::t_value::TValue;

verus! {

use crate::data_frame::spec_frame_tag;
use crate::id_message::AF_MENU;
use crate::raw_frame::RawFrameView;

#[derive(Debug, Default)]
pub struct MMenu {}

impl MMenu {
    /// A new conversation may begin; this middleware keeps no state.
    pub fn reset_conversation(&self, context: &mut Context)
        ensures
            final (context)@ == old(context)@,
    {
    }

    /// Replies NACK to every menu request; any other request is not this
    /// middleware's.
    pub fn get_conversation(
        &self,
        context: &mut Context,
        db: &mut Database,
        id_user: IdUser,
        request_data_frame: &DataFrame,
    ) -> (r: Option<RawFrame>)
        ensures
            final (context)@ == old(context)@,
            final (db)@ == old(db)@,
            spec_frame_tag(request_data_frame@) != AF_MENU ==> r is None,
            spec_frame_tag(request_data_frame@) == AF_MENU ==> (r matches Some(f) && f@
                == RawFrameView::Nack),
    {
        if request_data_frame.get_tag() != AF_MENU {
            return None;
        }
        Some(RawFrame::new_nack())
    }

    /// Menu handling ignores database changes.
    pub fn notification_change(
        &self,
        context: &mut Context,
        db: &mut Database,
        my_id_user: IdUser,
        id_user: IdUser,
        id_tag: IdTag,
        t_value: &TValue,
    )
        ensures
            final (context)@ == old(context)@,
            final (db)@ == old(db)@,
    {
    }
}

} // verus!
