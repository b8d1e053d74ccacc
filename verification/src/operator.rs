use vstd::prelude::*;
use vstd::string::*;

use crate::text::owned;

verus! {

/// The finalizer that the operator puts on the applications it manages.
pub const APP_FINALIZER: &'static str = "apps.fp.com/finalizer";

/// What a reconciliation does with an application.
#[derive(Debug, Clone, Copy, PartialEq, Eq, Structural)]
pub enum SealedAction {
    /// Put the finalizer on it and deploy it.
    Create,
    /// Leave it as it is.
    NoOp,
    /// Take the finalizer off and delete what was deployed.
    Delete,
}

/// When the controller looks at an application again.
#[derive(Debug, Clone, Copy, PartialEq, Eq, Structural)]
pub enum Requeue {
    /// When the application changes.
    AwaitChange,
    /// After this many seconds.
    After(u64),
}

/// What to do with an application: delete it when its deletion has been asked for, create
/// it when it carries no finalizer yet, and otherwise nothing.
pub fn determine_action(deletion_requested: bool, finalizers: &Option<Vec<String>>) -> (r:
    SealedAction)
    ensures
        r == if deletion_requested {
            SealedAction::Delete
        } else if finalizers is None || finalizers.unwrap()@.len() == 0 {
            SealedAction::Create
        } else {
            SealedAction::NoOp
        },
{
    if deletion_requested {
        SealedAction::Delete
    } else {
        match finalizers {
            None => SealedAction::Create,
            Some(f) => if f.len() == 0 {
                SealedAction::Create
            } else {
                SealedAction::NoOp
            },
        }
    }
}

/// When a reconciliation that did `action` is followed up: a creation or a deletion waits for
/// the next change, and nothing done looks again after ten seconds.
pub fn requeue_after(action: SealedAction) -> (r: Requeue)
    ensures
        r == match action {
            SealedAction::NoOp => Requeue::After(10),
            _ => Requeue::AwaitChange,
        },
{
    match action {
        SealedAction::NoOp => Requeue::After(10),
        _ => Requeue::AwaitChange,
    }
}

/// When a failed reconciliation is tried again: after five seconds.
pub fn requeue_on_error() -> (r: Requeue)
    ensures
        r == Requeue::After(5),
{
    Requeue::After(5)
}

/// The namespace of an application: its own, or `default`.
pub fn app_namespace(namespace: Option<String>) -> (r: String)
    ensures
        r@ == match namespace {
            Some(n) => n@,
            None => "default"@,
        },
{
    match namespace {
        Some(n) => n,
        None => owned("default"),
    }
}

} // verus!
