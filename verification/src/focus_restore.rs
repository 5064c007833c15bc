//! Which application to bring back to the front when the picker hides.
use vstd::prelude::*;

use crate::text::str_equals;

verus! {

/// The bundle identifier of this application.
pub const ESTM_BUNDLE_ID: &'static str = "fun.estm";

/// Last frontmost application (not this one), captured when the picker is
/// shown, by its process id.
#[derive(Debug)]
pub struct PreviousFrontApp {
    pub pid: Option<i32>,
}

/// Whether a bundle identifier is this application's.
pub open spec fn is_estm(bundle_id: Option<Seq<char>>) -> bool {
    match bundle_id {
        Some(b) => b == "fun.estm"@,
        None => false,
    }
}

pub open spec fn opt_str(o: Option<&str>) -> Option<Seq<char>> {
    match o {
        Some(s) => Some(s@),
        None => None,
    }
}

/// Whether the application with this bundle identifier is this one.
pub fn is_estm_app(bundle_id: Option<&str>) -> (b: bool)
    ensures
        b == is_estm(opt_str(bundle_id)),
{
    match bundle_id {
        Some(id) => str_equals(id, ESTM_BUNDLE_ID),
        None => false,
    }
}

/// What is remembered after capturing the frontmost application (by its
/// bundle identifier and process id) when `before` was remembered.
pub open spec fn after_capture(before: Option<i32>, bundle_id: Option<Seq<char>>, pid: i32) -> Option<
    i32,
> {
    if is_estm(bundle_id) || pid < 0 {
        before
    } else {
        Some(pid)
    }
}

impl PreviousFrontApp {
    /// Nothing remembered yet.
    pub fn new() -> (s: Self)
        ensures
            s.pid is None,
    {
        PreviousFrontApp { pid: None }
    }

    /// Remembers the frontmost application, unless it is this one or has no
    /// valid process id.
    pub fn capture(&mut self, bundle_id: Option<&str>, pid: i32)
        ensures
            final(self).pid == after_capture(old(self).pid, opt_str(bundle_id), pid),
    {
        if is_estm_app(bundle_id) {
            return;
        }
        if pid >= 0 {
            self.pid = Some(pid);
        }
    }

    /// The application to bring back, which is then forgotten.
    pub fn restore(&mut self) -> (pid: Option<i32>)
        ensures
            pid == old(self).pid,
            final(self).pid is None,
    {
        let pid = self.pid;
        self.pid = None;
        pid
    }
}

/// Capturing another application with a valid process id remembers it;
/// capturing this application (the picker itself) changes nothing.
pub proof fn law_capture_remembers_other_apps(before: Option<i32>, bundle_id: Option<Seq<char>>, pid: i32)
    ensures
        !is_estm(bundle_id) && pid >= 0 ==> after_capture(before, bundle_id, pid) == Some(pid),
        is_estm(bundle_id) ==> after_capture(before, bundle_id, pid) == before,
{
}

} // verus!
