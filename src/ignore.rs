//! The ignore policy: window titles that are system surfaces or lifecycle
//! markers rather than applications a user works in. It is applied before an
//! event is logged and again when time is attributed.

use vstd::prelude::*;
use crate::text::same_text;

verus! {

/// The ignore set: titles that are never logged on capture, never receive
/// attributed time and never appear in a query result.
pub open spec fn is_ignored_spec(name: Seq<char>) -> bool {
    name == "Windows Shell Experience Host"@
    || name == "Windows Start Experience Host"@
    || name == "LockApp.exe"@
    || name == "Windows 资源管理器"@
    || name == "Windows Explorer"@
    || name == "Windows Terminal Host"@
    || name == "ShellHost"@
    || name == "任务管理器"@
    || name == "TaskManager"@
    || name == "Application Exited"@
}

/// Whether `name` is in the ignore set. Unknown names are never ignored.
pub fn is_ignored(name: &str) -> (r: bool)
    ensures
        r == is_ignored_spec(name@),
{
    same_text(name, "Windows Shell Experience Host")
    || same_text(name, "Windows Start Experience Host")
    || same_text(name, "LockApp.exe")
    || same_text(name, "Windows 资源管理器")
    || same_text(name, "Windows Explorer")
    || same_text(name, "Windows Terminal Host")
    || same_text(name, "ShellHost")
    || same_text(name, "任务管理器")
    || same_text(name, "TaskManager")
    || same_text(name, "Application Exited")
}

} // verus!
