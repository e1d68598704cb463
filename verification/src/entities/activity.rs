//! An activity: a stretch of time spent in one application window.
use vstd::prelude::*;

verus! {

/// Time spent in one application, from `start` to `last_active`
/// (milliseconds since the Unix epoch), on one computer.
#[derive(Clone, Debug)]
pub struct Activity {
    pub id: String,
    pub app_name: String,
    pub start: u64,
    pub last_active: u64,
    pub computer_name: String,
}

impl Activity {
    /// A copy of this activity.
    pub fn copy(&self) -> (r: Activity)
        ensures
            r == *self,
    {
        Activity {
            id: self.id.clone(),
            app_name: self.app_name.clone(),
            start: self.start,
            last_active: self.last_active,
            computer_name: self.computer_name.clone(),
        }
    }
}

} // verus!
