//! The instance-manager collaborator's request shape. The daemon can relay
//! a lifecycle command as one HTTP GET of `/instance/{id}/{action}` against
//! a fixed local service; only the path and the success reply are decided
//! here, the call itself is the caller's.
use vstd::prelude::*;
use vstd::string::*;

use crate::codec::DaemonCommands;
use crate::text::{dec_str, u16_to_string};

verus! {

/// The action word a command kind selects in the request path.
pub open spec fn action_name(kind: DaemonCommands) -> Seq<char> {
    match kind {
        DaemonCommands::StartInstance => "start"@,
        DaemonCommands::CloseInstance => "close"@,
        DaemonCommands::RestartInstance => "restart"@,
        DaemonCommands::StopInstance => "stop"@,
        DaemonCommands::ResumeInstance => "resume"@,
    }
}

/// The request path for one lifecycle command against one instance.
pub open spec fn manager_path(instance_id: u16, kind: DaemonCommands) -> Seq<char> {
    "/instance/"@ + dec_str(instance_id as nat) + seq!['/'] + action_name(kind)
}

/// Builds the instance-manager request path `/instance/{id}/{action}`.
pub fn instance_request_path(instance_id: u16, kind: DaemonCommands) -> (r: String)
    ensures
        r@ == manager_path(instance_id, kind),
{
    proof {
        reveal_strlit("/");
    }
    let mut s = "/instance/".to_owned();
    s.append(u16_to_string(instance_id).as_str());
    s.append("/");
    let action: &str = match kind {
        DaemonCommands::StartInstance => "start",
        DaemonCommands::CloseInstance => "close",
        DaemonCommands::RestartInstance => "restart",
        DaemonCommands::StopInstance => "stop",
        DaemonCommands::ResumeInstance => "resume",
    };
    s.append(action);
    proof {
        assert(s@ =~= manager_path(instance_id, kind));
    }
    s
}

/// The reply for a completed instance-manager call: any non-error HTTP
/// completion counts as success and is reported as `Success`; a transport
/// error yields no reply.
pub fn manager_reply(completed: bool) -> (r: Option<String>)
    ensures
        completed ==> (r matches Some(s) && s@ == "Success"@),
        !completed ==> r is None,
{
    if completed {
        Some("Success".to_owned())
    } else {
        None
    }
}

} // verus!
