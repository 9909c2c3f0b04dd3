//! The cursor over the stream of updates.
use vstd::prelude::*;

verus! {

/// The offset to poll from after handling update `update_id`: one past the highest
/// update id handled so far, so that the cursor never moves back.
pub fn next_offset(offset: i32, update_id: u32) -> (r: i32)
    requires
        update_id < i32::MAX,
    ensures
        r == (if update_id >= offset {
            update_id + 1
        } else {
            offset as int
        }),
        r >= offset,
        r > update_id,
{
    if update_id as i64 >= offset as i64 {
        (update_id + 1) as i32
    } else {
        offset
    }
}

} // verus!
