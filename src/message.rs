//! A posted message.
use vstd::prelude::*;

use crate::geometry::BoundingBox;

verus! {

/// A message tagged with the area it speaks of. `created_at` is in seconds
/// since the Unix epoch, UTC.
#[derive(Debug)]
pub struct Message {
    pub created_at: i64,
    pub user: String,
    pub text: String,
    pub bounding_box: BoundingBox,
}

/// Why a post was turned down.
#[derive(Clone, Copy, Debug, PartialEq, Eq, Structural)]
pub enum PostError {
    EmptyUser,
    EmptyText,
}

/// The outcome of validating a post: an empty user is reported first, then
/// an empty text; otherwise the message holds exactly the given fields.
pub open spec fn post_outcome(
    created_at: i64,
    user: String,
    text: String,
    bounding_box: BoundingBox,
) -> Result<Message, PostError> {
    if user@.len() == 0 {
        Err(PostError::EmptyUser)
    } else if text@.len() == 0 {
        Err(PostError::EmptyText)
    } else {
        Ok(Message { created_at, user, text, bounding_box })
    }
}

impl Message {
    /// Builds a message, refusing an empty user or an empty text.
    pub fn new(created_at: i64, user: String, text: String, bounding_box: BoundingBox) -> (r:
        Result<Message, PostError>)
        ensures
            r == post_outcome(created_at, user, text, bounding_box),
    {
        if user.as_str().is_empty() {
            Err(PostError::EmptyUser)
        } else if text.as_str().is_empty() {
            Err(PostError::EmptyText)
        } else {
            Ok(Message { created_at, user, text, bounding_box })
        }
    }

    /// A copy of the message.
    pub fn duplicate(&self) -> (r: Message)
        ensures
            r == *self,
    {
        Message {
            created_at: self.created_at,
            user: self.user.clone(),
            text: self.text.clone(),
            bounding_box: self.bounding_box,
        }
    }
}

} // verus!
