//! The texts that tell the user what an action on a process or an
//! application will do, and how it went.

use crate::processes::{ActionError, ProcessAction};
use crate::text::{decimal, decimal_string};
use vstd::prelude::*;
use vstd::string::StringExecFns;

verus! {

/// What stands in a text where a name is to be filled in.
pub const PLACEHOLDER: &'static str = "{}";

/// The text `before`, then the first of `args`, then `after`; where there
/// is no argument the placeholder stays.
pub open spec fn filled(before: Seq<char>, args: Seq<Seq<char>>, after: Seq<char>) -> Seq<char> {
    if args.len() > 0 {
        before + args[0] + after
    } else {
        before + PLACEHOLDER@ + after
    }
}

/// The texts of a slice of strings.
pub open spec fn texts(args: Seq<&str>) -> Seq<Seq<char>> {
    Seq::new(args.len(), |i: int| args[i]@)
}

fn fill(before: &str, args: &[&str], after: &str) -> (r: String)
    ensures
        r@ == filled(before@, texts(args@), after@),
{
    let middle = if args.len() > 0 {
        args[0]
    } else {
        PLACEHOLDER
    };
    String::from_str(before).concat(middle).concat(after)
}

/// The question that is put to the user before an action, with the name
/// of its target.
pub open spec fn action_name(action: ProcessAction, args: Seq<Seq<char>>) -> Seq<char> {
    match action {
        ProcessAction::TERM => filled("End "@, args, "?"@),
        ProcessAction::STOP => filled("Halt "@, args, "?"@),
        ProcessAction::KILL => filled("Kill "@, args, "?"@),
        ProcessAction::CONT => filled("Continue "@, args, "?"@),
    }
}

/// The question that is put to the user before an action.
pub fn get_action_name(action: ProcessAction, args: &[&str]) -> (r: String)
    ensures
        r@ == action_name(action, texts(args@)),
{
    match action {
        ProcessAction::TERM => fill("End ", args, "?"),
        ProcessAction::STOP => fill("Halt ", args, "?"),
        ProcessAction::KILL => fill("Kill ", args, "?"),
        ProcessAction::CONT => fill("Continue ", args, "?"),
    }
}

/// The warning that goes with an action on an application; none for continuing.
pub open spec fn app_action_warning(action: ProcessAction) -> Seq<char> {
    match action {
        ProcessAction::TERM => "Unsaved work might be lost."@,
        ProcessAction::STOP => "Halting an application can come with serious risks such as losing data and security implications. Use with caution."@,
        ProcessAction::KILL => "Killing an application can come with serious risks such as losing data and security implications. Use with caution."@,
        ProcessAction::CONT => Seq::empty(),
    }
}

/// The warning that goes with an action on an application.
pub fn get_app_action_warning(action: ProcessAction) -> (r: String)
    ensures
        r@ == app_action_warning(action),
{
    match action {
        ProcessAction::TERM => String::from_str("Unsaved work might be lost."),
        ProcessAction::STOP => String::from_str(
            "Halting an application can come with serious risks such as losing data and security implications. Use with caution.",
        ),
        ProcessAction::KILL => String::from_str(
            "Killing an application can come with serious risks such as losing data and security implications. Use with caution.",
        ),
        ProcessAction::CONT => String::new(),
    }
}

/// What an action on an application is called on the button that confirms it.
pub open spec fn app_action_description(action: ProcessAction) -> Seq<char> {
    match action {
        ProcessAction::TERM => "End application"@,
        ProcessAction::STOP => "Halt application"@,
        ProcessAction::KILL => "Kill application"@,
        ProcessAction::CONT => "Continue application"@,
    }
}

/// What an action on an application is called on the button that confirms it.
pub fn get_app_action_description(action: ProcessAction) -> (r: String)
    ensures
        r@ == app_action_description(action),
{
    match action {
        ProcessAction::TERM => String::from_str("End application"),
        ProcessAction::STOP => String::from_str("Halt application"),
        ProcessAction::KILL => String::from_str("Kill application"),
        ProcessAction::CONT => String::from_str("Continue application"),
    }
}

/// What the user is told after an action that went well.
pub open spec fn action_success(action: ProcessAction, args: Seq<Seq<char>>) -> Seq<char> {
    match action {
        ProcessAction::TERM => filled("Successfully ended "@, args, Seq::empty()),
        ProcessAction::STOP => filled("Successfully halted "@, args, Seq::empty()),
        ProcessAction::KILL => filled("Successfully killed "@, args, Seq::empty()),
        ProcessAction::CONT => filled("Successfully continued "@, args, Seq::empty()),
    }
}

/// What the user is told after an action that went well.
pub fn get_action_success(action: ProcessAction, args: &[&str]) -> (r: String)
    ensures
        r@ == action_success(action, texts(args@)),
{
    let r = match action {
        ProcessAction::TERM => fill("Successfully ended ", args, ""),
        ProcessAction::STOP => fill("Successfully halted ", args, ""),
        ProcessAction::KILL => fill("Successfully killed ", args, ""),
        ProcessAction::CONT => fill("Successfully continued ", args, ""),
    };
    proof {
        reveal_strlit("");
        assert(""@ =~= Seq::<char>::empty());
    }
    r
}

/// What the user is told after an action on an application that failed for
/// `failed` of its processes: of one process in the singular, of any other
/// number with the number.
pub open spec fn app_action_failure(action: ProcessAction, failed: u32) -> Seq<char> {
    if failed == 1 {
        match action {
            ProcessAction::TERM => "There was a problem ending a process"@,
            ProcessAction::STOP => "There was a problem halting a process"@,
            ProcessAction::KILL => "There was a problem killing a process"@,
            ProcessAction::CONT => "There was a problem continuing a process"@,
        }
    } else {
        match action {
            ProcessAction::TERM => "There were problems ending "@ + decimal(failed as nat)
                + " processes"@,
            ProcessAction::STOP => "There were problems halting "@ + decimal(failed as nat)
                + " processes"@,
            ProcessAction::KILL => "There were problems killing "@ + decimal(failed as nat)
                + " processes"@,
            ProcessAction::CONT => "There were problems continuing "@ + decimal(failed as nat)
                + " processes"@,
        }
    }
}

/// What the user is told after an action on an application that failed for
/// `args` of its processes.
pub fn get_app_action_failure(action: ProcessAction, args: u32) -> (r: String)
    ensures
        r@ == app_action_failure(action, args),
{
    if args == 1 {
        match action {
            ProcessAction::TERM => String::from_str("There was a problem ending a process"),
            ProcessAction::STOP => String::from_str("There was a problem halting a process"),
            ProcessAction::KILL => String::from_str("There was a problem killing a process"),
            ProcessAction::CONT => String::from_str("There was a problem continuing a process"),
        }
    } else {
        let number = decimal_string(args);
        let before = match action {
            ProcessAction::TERM => "There were problems ending ",
            ProcessAction::STOP => "There were problems halting ",
            ProcessAction::KILL => "There were problems killing ",
            ProcessAction::CONT => "There were problems continuing ",
        };
        String::from_str(before).concat(number.as_str()).concat(" processes")
    }
}

/// What the user is told after an action on a process that failed.
pub open spec fn process_action_failure(action: ProcessAction, args: Seq<Seq<char>>) -> Seq<char> {
    match action {
        ProcessAction::TERM => filled("There was a problem ending "@, args, Seq::empty()),
        ProcessAction::STOP => filled("There was a problem halting "@, args, Seq::empty()),
        ProcessAction::KILL => filled("There was a problem killing "@, args, Seq::empty()),
        ProcessAction::CONT => filled("There was a problem continuing "@, args, Seq::empty()),
    }
}

/// What the user is told after an action on a process that failed.
pub fn get_process_action_failure(action: ProcessAction, args: &[&str]) -> (r: String)
    ensures
        r@ == process_action_failure(action, texts(args@)),
{
    let r = match action {
        ProcessAction::TERM => fill("There was a problem ending ", args, ""),
        ProcessAction::STOP => fill("There was a problem halting ", args, ""),
        ProcessAction::KILL => fill("There was a problem killing ", args, ""),
        ProcessAction::CONT => fill("There was a problem continuing ", args, ""),
    };
    proof {
        reveal_strlit("");
        assert(""@ =~= Seq::<char>::empty());
    }
    r
}

/// How many of the outcomes are failures.
pub open spec fn failures(outcomes: Seq<Result<(), ActionError>>) -> nat
    decreases outcomes.len(),
{
    if outcomes.len() == 0 {
        0
    } else {
        failures(outcomes.drop_last()) + if outcomes.last() is Err {
            1nat
        } else {
            0nat
        }
    }
}

/// Counts the deliveries that failed.
pub fn count_failures(outcomes: &Vec<Result<(), ActionError>>) -> (r: usize)
    ensures
        r == failures(outcomes@),
        r <= outcomes@.len(),
{
    let mut failed: usize = 0;
    let mut i: usize = 0;
    assert(outcomes@.take(0) =~= Seq::<Result<(), ActionError>>::empty());
    while i < outcomes.len()
        invariant
            i <= outcomes@.len(),
            failed <= i,
            failed == failures(outcomes@.take(i as int)),
        decreases outcomes@.len() - i,
    {
        assert(outcomes@.take(i + 1).drop_last() =~= outcomes@.take(i as int));
        if outcomes[i].is_err() {
            failed = failed + 1;
        }
        i = i + 1;
    }
    assert(outcomes@.take(i as int) =~= outcomes@);
    failed
}

/// What the user is told after an action on the application called
/// `display_name`: that it went well where no delivery failed, else for how
/// many processes it failed.
pub open spec fn app_action_report(
    action: ProcessAction,
    display_name: Seq<char>,
    outcomes: Seq<Result<(), ActionError>>,
) -> Seq<char> {
    if failures(outcomes) > 0 {
        app_action_failure(action, failures(outcomes) as u32)
    } else {
        action_success(action, seq![display_name])
    }
}

/// What the user is told after an action on an application, from the
/// outcomes of its deliveries.
pub fn get_app_action_report(
    action: ProcessAction,
    display_name: &str,
    outcomes: &Vec<Result<(), ActionError>>,
) -> (r: String)
    ensures
        r@ == app_action_report(action, display_name@, outcomes@),
{
    let failed = count_failures(outcomes);
    if failed > 0 {
        get_app_action_failure(action, failed as u32)
    } else {
        let args = [display_name];
        assert(texts(args@) =~= seq![display_name@]);
        get_action_success(action, &args)
    }
}

} // verus!
