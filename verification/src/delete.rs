//! Accounting for a bulk best-effort removal: one outcome record per
//! requested path, failures recorded and never escalated.

use vstd::prelude::*;

verus! {

/// The outcome of one removal attempt: the path it was attempted on,
/// whether it succeeded, and the platform's description of the failure
/// otherwise.
#[derive(Debug, Clone)]
pub struct DeleteResult {
    pub success: bool,
    pub path: String,
    pub error: Option<String>,
}

/// The outcome record for one attempted removal: successful exactly when
/// the attempt produced no error message.
pub fn removal_outcome(path: String, error: Option<String>) -> (r: DeleteResult)
    ensures
        r.path@ == path@,
        r.success == (error is None),
        r.error.deep_view() == error.deep_view(),
{
    let success = match &error {
        Option::None => true,
        Option::Some(_) => false,
    };
    DeleteResult { success, path, error }
}

/// Assembles the report of a bulk removal. The caller attempts to remove
/// each requested path independently of the others and hands in every path
/// paired with the error message its attempt produced, if any; the report
/// carries exactly one outcome per attempted path, in the order given,
/// successful precisely where no error was recorded — no path is dropped
/// or duplicated, however many attempts failed.
pub fn delete_folders(attempts: Vec<(String, Option<String>)>) -> (out: Vec<DeleteResult>)
    ensures
        out@.len() == attempts@.len(),
        forall|i: int|
            0 <= i < attempts@.len() ==> {
                &&& (#[trigger] out@[i]).path@ == attempts@[i].0@
                &&& out@[i].success == (attempts@[i].1 is None)
                &&& out@[i].error.deep_view() == attempts@[i].1.deep_view()
            },
{
    let mut out: Vec<DeleteResult> = Vec::new();
    let mut i: usize = 0;
    while i < attempts.len()
        invariant
            i <= attempts@.len(),
            out@.len() == i,
            forall|k: int|
                0 <= k < i ==> {
                    &&& (#[trigger] out@[k]).path@ == attempts@[k].0@
                    &&& out@[k].success == (attempts@[k].1 is None)
                    &&& out@[k].error.deep_view() == attempts@[k].1.deep_view()
                },
        decreases attempts@.len() - i,
    {
        let (p, e) = &attempts[i];
        let err = match e {
            Option::None => Option::None,
            Option::Some(msg) => Option::Some(msg.clone()),
        };
        let r = removal_outcome(p.clone(), err);
        out.push(r);
        i = i + 1;
    }
    out
}

} // verus!
