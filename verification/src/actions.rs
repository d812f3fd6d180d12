//! What the user asks of the tracker, and what the user is told of how it went.

use crate::app::fanned_out;
use crate::tracker::AppsContext;
use crate::messages::{
    action_success, app_action_report, get_action_success, get_app_action_report,
    get_process_action_failure, process_action_failure,
};
use crate::processes::{delivered, ActionError, ProcessAction};
use crate::text::optional_text;
use vstd::prelude::*;

verus! {

/// A request of the user.
#[derive(Debug)]
pub enum Action {
    /// Act on the process with this id, which is shown under this name.
    ManipulateProcess(ProcessAction, i32, String),
    /// Act on every living process of the application with this id.
    ManipulateApp(ProcessAction, String),
}

/// What the user is told after an action on the process shown as
/// `display_name`, given the outcome of the delivery.
pub open spec fn process_report(
    action: ProcessAction,
    display_name: Seq<char>,
    outcome: Result<(), ActionError>,
) -> Seq<char> {
    if outcome is Ok {
        action_success(action, seq![display_name])
    } else {
        process_action_failure(action, seq![display_name])
    }
}

/// Whether `told` is what the user is to be told after `request` was
/// carried out through `send`: nothing where the request names a process
/// that the tracker has never seen; else the message for the outcome of
/// the one delivery, or for the outcomes of the deliveries to the living
/// processes of the application.
pub open spec fn carried_out<F: Fn(i32, ProcessAction) -> i32>(
    context: &AppsContext,
    request: &Action,
    send: &F,
    told: Option<String>,
) -> bool {
    match *request {
        Action::ManipulateProcess(action, pid, display_name) => if context@.processes.contains_key(
            pid,
        ) {
            exists|outcome: Result<(), ActionError>| #[trigger]
                delivered(send, pid, action, outcome) && optional_text(told) == Some(
                    process_report(action, display_name@, outcome),
                )
        } else {
            told is None
        },
        Action::ManipulateApp(action, id) => exists|outcomes: Seq<Result<(), ActionError>>| #[trigger]
            fanned_out(
                send,
                action,
                context@.apps[id@].live_members(context@.processes),
                outcomes,
            ) && optional_text(told) == Some(
                app_action_report(action, context@.apps[id@].display_name, outcomes),
            ),
    }
}

/// Carries out a request of the user through `send`, which delivers one
/// signal, and gives the message that tells the user how it went. A request
/// for a process that the tracker has never seen does nothing and tells
/// nothing; a request for an application must name one that is installed.
pub fn process_action<F: Fn(i32, ProcessAction) -> i32>(
    context: &AppsContext,
    request: &Action,
    send: &F,
) -> (told: Option<String>)
    requires
        forall|pid: i32, action: ProcessAction| send.requires((pid, action)),
        request matches Action::ManipulateApp(_, id) ==> context@.apps.contains_key(id@),
    ensures
        carried_out(context, request, send, told),
{
    match request {
        Action::ManipulateProcess(action, pid, display_name) => {
            match context.get_process(*pid) {
                Some(process) => {
                    let outcome = process.execute_process_action(*action, send);
                    let args = [display_name.as_str()];
                    assert(crate::messages::texts(args@) =~= seq![display_name@]);
                    let text = match outcome {
                        Ok(()) => get_action_success(*action, &args),
                        Err(_) => get_process_action_failure(*action, &args),
                    };
                    assert(delivered(send, *pid, *action, outcome));
                    Some(text)
                },
                None => None,
            }
        },
        Action::ManipulateApp(action, id) => {
            match context.get_app(id.as_str()) {
                Some(app) => {
                    let outcomes = app.execute_process_action(context, *action, send);
                    let name = app.display_name();
                    let text = get_app_action_report(*action, name, &outcomes);
                    assert(fanned_out(
                        send,
                        *action,
                        context@.apps[id@].live_members(context@.processes),
                        outcomes@,
                    ));
                    Some(text)
                },
                None => None,
            }
        },
    }
}

} // verus!
