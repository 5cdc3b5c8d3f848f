//! Message dispatch: from an inbound text message to the native action it
//! asks for.
//!
//! The host's event loop hands every inbound message to `handle_message`
//! and performs the returned action: open the directory dialog, or forward
//! a log line at the mapped severity. A malformed message yields a
//! recoverable error, so one bad message never ends the session.

use vstd::prelude::*;
use crate::protocol::{decode_command, spec_decode, Command, CommandView, ProtocolError};
use crate::severity::{severity_for_kind, spec_severity, Severity};

verus! {

/// The native action an inbound message asks for.
pub enum Action {
    /// Open the directory picker and deliver the result through the named
    /// callback.
    OpenDialog { callback_name: String },
    /// Forward a message to the logging sink at the mapped severity.
    EmitLog { severity: Severity, message: String },
}

/// Decodes a message and routes it: a `SelectInstallDir` command becomes
/// an `OpenDialog` action with the same callback name; a `Log` command
/// becomes an `EmitLog` action carrying the message verbatim and the
/// severity its label maps to; anything else is a recoverable error.
pub fn handle_message(msg: &str) -> (r: Result<Action, ProtocolError>)
    ensures
        r is Err <==> spec_decode(msg@) is None,
        (match spec_decode(msg@) {
            Some(CommandView::SelectInstallDir { callback_name: cb }) => r matches Ok(
                Action::OpenDialog { callback_name },
            ) && callback_name@ == cb,
            Some(CommandView::Log { msg: m, kind }) => r matches Ok(
                Action::EmitLog { severity, message },
            ) && message@ == m && severity == spec_severity(kind),
            None => r is Err,
        }),
{
    match decode_command(msg) {
        Err(e) => Err(e),
        Ok(Command::SelectInstallDir { callback_name }) => Ok(
            Action::OpenDialog { callback_name },
        ),
        Ok(Command::Log { msg, kind }) => {
            let severity = severity_for_kind(kind.as_str());
            Ok(Action::EmitLog { severity, message: msg })
        },
    }
}

} // verus!
