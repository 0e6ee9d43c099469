//! The part of a dispatch envelope that the queue reads.
use vstd::prelude::*;

use crate::text::{copy_opt, opt_text};

verus! {

/// A dispatch envelope: what to run, and on which subject.
///
/// The queue reads the keys below; the rest of the envelope travels through
/// the queue unread, in `envelope`.
#[derive(Debug)]
pub struct SubjectDispatch {
    /// Key under which the queue tracks the subject: the id of a built-in
    /// subject, `kind::id` of any other.
    pub subject_key: String,
    /// Id of the subject, without its kind.
    pub subject_id: String,
    /// Task id, when the subject is a built-in task.
    pub task_id: Option<String>,
    /// Workflow to run on the subject.
    pub workflow_ref: String,
    /// The whole envelope, serialized.
    pub envelope: String,
}

/// What a [`SubjectDispatch`] holds.
#[verifier::ext_equal]
pub struct DispatchView {
    pub subject_key: Seq<char>,
    pub subject_id: Seq<char>,
    pub task_id: Option<Seq<char>>,
    pub workflow_ref: Seq<char>,
    pub envelope: Seq<char>,
}

impl View for SubjectDispatch {
    type V = DispatchView;

    open spec fn view(&self) -> DispatchView {
        DispatchView {
            subject_key: self.subject_key@,
            subject_id: self.subject_id@,
            task_id: opt_text(self.task_id),
            workflow_ref: self.workflow_ref@,
            envelope: self.envelope@,
        }
    }
}

impl Clone for SubjectDispatch {
    fn clone(&self) -> (copy: Self)
        ensures
            copy@ == self@,
    {
        SubjectDispatch {
            subject_key: self.subject_key.clone(),
            subject_id: self.subject_id.clone(),
            task_id: copy_opt(&self.task_id),
            workflow_ref: self.workflow_ref.clone(),
            envelope: self.envelope.clone(),
        }
    }
}

/// What an optional envelope holds.
pub open spec fn opt_dispatch(dispatch: Option<SubjectDispatch>) -> Option<DispatchView> {
    match dispatch {
        Some(dispatch) => Some(dispatch@),
        None => None,
    }
}

/// A copy of an optional envelope.
pub fn copy_dispatch(dispatch: &Option<SubjectDispatch>) -> (copy: Option<SubjectDispatch>)
    ensures
        opt_dispatch(copy) == opt_dispatch(*dispatch),
{
    match dispatch {
        Some(dispatch) => Some(dispatch.clone()),
        None => None,
    }
}

} // verus!
