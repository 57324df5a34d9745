//! The source table `public.users`: the decision taken after a plan update.

use vstd::prelude::*;

use crate::event::{UserDocument, UserDocumentView};

verus! {

/// The user row after a plan update that changed `updated_rows` rows: the
/// user with the new plan when the update matched a row, else nothing (the
/// row did not have the expected plan, or does not exist).
pub fn updated_user(updated_rows: u64, user_id: i64, name: &str, new_plan: &str) -> (res: Option<
    UserDocument,
>)
    ensures
        match res {
            Some(user) => updated_rows > 0 && user@ == (UserDocumentView {
                id: user_id,
                name: name@,
                plan: new_plan@,
            }),
            None => updated_rows == 0,
        },
{
    if updated_rows == 0 {
        None
    } else {
        Some(UserDocument::new(user_id, name, new_plan))
    }
}

} // verus!
