//! Callback injection: delivering a directory-selection result back into
//! the web content by evaluating a named-function-call expression.

use vstd::prelude::*;
use crate::jstring::json_string_lit;
use crate::trusted::json_encode_str;

verus! {

/// The outcome of a native directory-selection dialog: a chosen path, a
/// cancellation by the user, or a failure of the native facility. At the
/// protocol level the last two are treated alike: nothing is injected.
pub enum DialogOutcome {
    Selected { path: String },
    Cancelled,
    Failed,
}

/// The injection expression for a selected path: the callback's name
/// applied to the JSON encoding of the path, `<name>(<json string>);`.
pub open spec fn spec_injection(callback_name: Seq<char>, path: Seq<char>) -> Seq<char> {
    callback_name + seq!['('] + json_string_lit(path) + seq![')', ';']
}

/// Builds the expression that hands `path` to the web content's callback.
pub fn build_injection(callback_name: &str, path: &str) -> (r: String)
    ensures
        r@ == spec_injection(callback_name@, path@),
{
    let mut out = String::new();
    out.append(callback_name);
    out.push('(');
    let lit = json_encode_str(path);
    out.append(lit.as_str());
    out.push(')');
    out.push(';');
    proof {
        assert(out@ =~= spec_injection(callback_name@, path@));
    }
    out
}

/// The expression to evaluate in the web content for a dialog outcome:
/// the injection expression when a path was selected, and nothing at all
/// when the dialog was cancelled or failed.
pub fn dialog_response_script(callback_name: &str, outcome: &DialogOutcome) -> (r: Option<String>)
    ensures
        match outcome {
            DialogOutcome::Selected { path } => r matches Some(s) && s@ == spec_injection(
                callback_name@,
                path@,
            ),
            DialogOutcome::Cancelled => r is None,
            DialogOutcome::Failed => r is None,
        },
{
    match outcome {
        DialogOutcome::Selected { path } => Some(build_injection(callback_name, path.as_str())),
        DialogOutcome::Cancelled => None,
        DialogOutcome::Failed => None,
    }
}

} // verus!
