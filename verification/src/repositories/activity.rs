//! The activity repository: the records it stores for a new activity and for
//! a renewed one, and the activities it lists for a time range.
use vstd::prelude::*;

use crate::common::utils::{generate_random_id, is_alphanumeric};
use crate::entities::activity::Activity;
use crate::text::copy_string;

verus! {

/// What starts an activity: the application and the time it was first seen.
#[derive(Clone, Debug)]
pub struct StartActivity {
    pub app_name: String,
    pub at: u64,
}

/// The activity repository of one computer.
#[derive(Clone, Debug)]
pub struct ActivityRepositoryInner {
    pub computer_name: String,
}

/// Why an activity could not be renewed.
#[derive(Clone, Copy, Debug, PartialEq, Eq, Structural)]
pub enum ActivityError {
    /// No activity has the id that was given.
    NotFound,
}

impl ActivityError {
    /// The error's message.
    pub fn message(&self) -> (r: String)
        ensures
            r@ == match *self {
                ActivityError::NotFound => "Task not found"@,
            },
    {
        match self {
            ActivityError::NotFound => String::from_str("Task not found"),
        }
    }
}

/// `b` is `a` with its last activity moved to `at`.
pub open spec fn renewed(a: Activity, b: Activity, at: u64) -> bool {
    &&& b.id@ == a.id@
    &&& b.app_name@ == a.app_name@
    &&& b.start == a.start
    &&& b.last_active == at
    &&& b.computer_name@ == a.computer_name@
}

/// The activities, among those listed by increasing start, that start in
/// `[lo, hi)`, in the same order.
pub open spec fn activities_in_range(by_start: Seq<Activity>, lo: u64, hi: u64) -> Seq<Activity>
    decreases by_start.len(),
{
    if by_start.len() == 0 {
        Seq::empty()
    } else {
        let rest = activities_in_range(by_start.drop_last(), lo, hi);
        let a = by_start.last();
        if lo <= a.start && a.start < hi {
            rest.push(a)
        } else {
            rest
        }
    }
}

impl ActivityRepositoryInner {
    /// The record of a new activity: a fresh random id of seven ASCII letters
    /// and digits, the application, the start time as both its start and its
    /// last activity, and this computer's name.
    pub fn register(&self, activity: StartActivity) -> (r: Activity)
        ensures
            r.id@.len() == 7,
            forall|i: int| 0 <= i < 7 ==> is_alphanumeric(#[trigger] r.id@[i]),
            r.app_name@ == activity.app_name@,
            r.start == activity.at,
            r.last_active == activity.at,
            r.computer_name@ == self.computer_name@,
    {
        let activity_id = generate_random_id(7);
        Activity {
            id: activity_id,
            app_name: activity.app_name,
            start: activity.at,
            last_active: activity.at,
            computer_name: copy_string(&self.computer_name),
        }
    }

    /// The record to store when the activity that the store holds under an
    /// id (`stored`, as the store returned it) was last active at
    /// `new_last_active`; `NotFound` when the store holds none.
    pub fn update_last_event(&self, stored: Option<Activity>, new_last_active: u64) -> (r: Result<
        Activity,
        ActivityError,
    >)
        ensures
            match stored {
                None => r == Err::<Activity, ActivityError>(ActivityError::NotFound),
                Some(a) => r matches Ok(b) && renewed(a, b, new_last_active),
            },
    {
        match stored {
            None => Err(ActivityError::NotFound),
            Some(a) => {
                let mut b = a;
                b.last_active = new_last_active;
                Ok(b)
            },
        }
    }

    /// Of the activities listed by increasing start, those that start at or
    /// after `start_timestamp` and before `end_timestamp`.
    pub fn list_activity_range(&self, by_start: Vec<Activity>, start_timestamp: u64, end_timestamp: u64) -> (r: Vec<Activity>)
        ensures
            r@ == activities_in_range(by_start@, start_timestamp, end_timestamp),
    {
        let mut r: Vec<Activity> = Vec::new();
        let mut i: usize = 0;
        let ghost all = by_start@;
        let mut src = by_start;
        while i < src.len()
            invariant
                src@ == all,
                i <= all.len(),
                r@ == activities_in_range(all.take(i as int), start_timestamp, end_timestamp),
            decreases all.len() - i,
        {
            proof {
                assert(all.take(i + 1int).drop_last() =~= all.take(i as int));
            }
            let a = src[i].copy();
            if start_timestamp <= src[i].start && src[i].start < end_timestamp {
                r.push(a);
            }
            i = i + 1;
        }
        proof {
            assert(all.take(all.len() as int) =~= all);
        }
        r
    }
}

} // verus!
