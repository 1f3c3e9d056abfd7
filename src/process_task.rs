//! Classifying a message's command and deciding the reply.

use vstd::prelude::*;

use crate::error::{ParseWorkoutError, ValidationError};
use crate::text::{split_once_on, split_once_spec, trim_text, trimmed};
use crate::workout_model::{parse_workout_spec, workout_text, Workout, WorkoutView};

verus! {

/// The reply to a message that holds no command and content.
pub const NO_COMMAND_REPLY: &'static str = "No command received.";

/// The reply to a command that is not known.
pub const INVALID_COMMAND_REPLY: &'static str = "Please, make sure to send a valid command.";

/// The reply to a workout text that does not parse.
pub const UNPARSABLE_WORKOUT_REPLY: &'static str =
    "Unable to parse the provided text to workout, please try again.";

/// The reply to a workout that the validator rejects.
pub const INVALID_WORKOUT_REPLY: &'static str = "The provided workout is not valid. Please try again.";

/// The reply when the workout could not be stored.
pub const STORAGE_FAILED_REPLY: &'static str =
    "Could not load workout to database, please check and try again.";

/// What a user asks for in the first line of a message.
#[derive(Debug, Clone, PartialEq, Eq)]
pub enum Command {
    NewWorkout,
    RegisterExercise,
    UnknownCommand(String),
}

/// The mathematical content of a [`Command`].
pub enum CommandView {
    NewWorkout,
    RegisterExercise,
    UnknownCommand(Seq<char>),
}

impl View for Command {
    type V = CommandView;

    open spec fn view(&self) -> CommandView {
        match self {
            Command::NewWorkout => CommandView::NewWorkout,
            Command::RegisterExercise => CommandView::RegisterExercise,
            Command::UnknownCommand(t) => CommandView::UnknownCommand(t@),
        }
    }
}

/// The command that the already trimmed text `t` names: an exact,
/// case-sensitive match of one of the two known commands, or else `t` itself
/// as an unknown command.
pub open spec fn command_of(t: Seq<char>) -> CommandView {
    if t == "/new_workout"@ {
        CommandView::NewWorkout
    } else if t == "/register_exercise"@ {
        CommandView::RegisterExercise
    } else {
        CommandView::UnknownCommand(t)
    }
}

impl Command {
    /// Classifies text from which surrounding whitespace is already removed.
    pub fn from_trimmed(t: &str) -> (r: Command)
        ensures
            r@ == command_of(t@),
    {
        let owned = t.to_owned();
        if owned == "/new_workout".to_owned() {
            Command::NewWorkout
        } else if owned == "/register_exercise".to_owned() {
            Command::RegisterExercise
        } else {
            Command::UnknownCommand(owned)
        }
    }

    /// Classifies a header line after trimming its surrounding whitespace;
    /// this never fails.
    pub fn from_str(s: &str) -> (r: Result<Command, ()>)
        ensures
            r matches Ok(c) && c@ == command_of(trimmed(s@)),
    {
        Ok(Command::from_trimmed(trim_text(s)))
    }
}

/// What is to be done in answer to a message.
#[derive(Debug, Clone)]
pub enum Action {
    /// Send this text back.
    Reply(String),
    /// Hand the workout to storage, then send `confirmation` back where that
    /// succeeds, or [`storage_failure_reply`] of the failure where it does not.
    StoreThenReply { workout: Workout, confirmation: String },
}

/// The mathematical content of an [`Action`].
pub enum ActionView {
    Reply(Seq<char>),
    StoreThenReply { workout: WorkoutView, confirmation: Seq<char> },
}

impl View for Action {
    type V = ActionView;

    open spec fn view(&self) -> ActionView {
        match self {
            Action::Reply(t) => ActionView::Reply(t@),
            Action::StoreThenReply { workout, confirmation } => ActionView::StoreThenReply {
                workout: workout@,
                confirmation: confirmation@,
            },
        }
    }
}

/// The acknowledgment of a register-exercise command, which repeats its
/// parameter text verbatim.
pub open spec fn register_reply(par: Seq<char>) -> Seq<char> {
    "Command: InsertExercise\nPar: \""@ + par + "\""@
}

/// The answer to a new-workout command whose content is `par`.
pub open spec fn new_workout_action(par: Seq<char>) -> ActionView {
    match parse_workout_spec(par) {
        Some(w) => ActionView::StoreThenReply { workout: w, confirmation: workout_text(w) },
        None => ActionView::Reply(UNPARSABLE_WORKOUT_REPLY@),
    }
}

/// The answer to `command` with content `par`.
pub open spec fn dispatch_action(command: CommandView, par: Seq<char>) -> ActionView {
    match command {
        CommandView::NewWorkout => new_workout_action(par),
        CommandView::RegisterExercise => ActionView::Reply(register_reply(par)),
        CommandView::UnknownCommand(_) => ActionView::Reply(INVALID_COMMAND_REPLY@),
    }
}

/// The answer to a whole message: its first line names the command, the rest
/// is the content; without a newline there is no command to answer.
pub open spec fn message_action(text: Seq<char>) -> ActionView {
    match split_once_spec(text, '\n') {
        Some((header, par)) => dispatch_action(command_of(trimmed(header)), par),
        None => ActionView::Reply(NO_COMMAND_REPLY@),
    }
}

/// Accepts every workout: the default policy, with no history to consult.
pub fn validate_workout(workout: Workout) -> (r: Result<Workout, ValidationError>)
    ensures
        r == Ok::<Workout, ValidationError>(workout),
{
    validate_workout_against(workout, None)
}

/// Accepts a workout unless the history, where there is one to consult,
/// already holds a workout of the same type on the same date.
pub fn validate_workout_against(workout: Workout, same_day_on_record: Option<bool>) -> (r: Result<
    Workout,
    ValidationError,
>)
    ensures
        same_day_on_record == Some(true) ==> r == Err::<Workout, ValidationError>(
            ValidationError::DuplicateDay,
        ),
        same_day_on_record != Some(true) ==> r == Ok::<Workout, ValidationError>(workout),
{
    match same_day_on_record {
        Some(true) => Err(ValidationError::DuplicateDay),
        _ => Ok(workout),
    }
}

/// Acknowledges a register-exercise command.
pub fn register_exercise(par: String) -> (r: String)
    ensures
        r@ == register_reply(par@),
{
    let mut r = "Command: InsertExercise\nPar: \"".to_owned();
    r.append(par.as_str());
    r.append("\"");
    r
}

/// Parses and validates a workout, and asks for it to be stored with its
/// summary as the confirmation.
pub fn new_workout(par: String) -> (r: Action)
    ensures
        r@ == new_workout_action(par@),
{
    match Workout::from_str(par.as_str()) {
        Ok(workout) => match validate_workout(workout) {
            Ok(workout) => {
                let confirmation = workout.to_string();
                Action::StoreThenReply { workout, confirmation }
            },
            Err(_) => Action::Reply(INVALID_WORKOUT_REPLY.to_owned()),
        },
        Err(_) => Action::Reply(UNPARSABLE_WORKOUT_REPLY.to_owned()),
    }
}

/// Decides the answer to `command` with content `par`.
pub fn dispatch(command: &Command, par: String) -> (r: Action)
    ensures
        r@ == dispatch_action(command@, par@),
{
    match command {
        Command::NewWorkout => new_workout(par),
        Command::RegisterExercise => Action::Reply(register_exercise(par)),
        Command::UnknownCommand(_) => Action::Reply(INVALID_COMMAND_REPLY.to_owned()),
    }
}

/// Splits a message at its first newline into its header line and its body.
pub fn split_message(text: &str) -> (r: Result<(&str, &str), ParseWorkoutError>)
    ensures
        match r {
            Ok(p) => split_once_spec(text@, '\n') == Some((p.0@, p.1@)),
            Err(e) => split_once_spec(text@, '\n') is None && e == ParseWorkoutError::MissingBody,
        },
{
    let parts = split_once_on(text, '\n');
    match parts {
        Some(p) => Ok(p),
        None => Err(ParseWorkoutError::MissingBody),
    }
}

/// Decides the answer to a whole message text.
pub fn process_message(text: &str) -> (r: Action)
    ensures
        r@ == message_action(text@),
{
    match split_message(text) {
        Ok((header, par)) => {
            let command = Command::from_str(header);
            match command {
                Ok(command) => dispatch(&command, par.to_owned()),
                Err(_) => Action::Reply(NO_COMMAND_REPLY.to_owned()),
            }
        },
        Err(_) => Action::Reply(NO_COMMAND_REPLY.to_owned()),
    }
}

/// The reply when storing the workout failed with the description `detail`.
pub fn storage_failure_reply(detail: &str) -> (r: String)
    ensures
        r@ == STORAGE_FAILED_REPLY@ + " Error: "@ + detail@ + "."@,
{
    let mut r = STORAGE_FAILED_REPLY.to_owned();
    r.append(" Error: ");
    r.append(detail);
    r.append(".");
    r
}

/// Where workouts are stored: the address of the storage service.
#[derive(Debug, Clone)]
pub struct DBHandler {
    pub api_url: String,
}

impl DBHandler {
    /// A handler for the storage service at `api_url`.
    pub fn new(api_url: String) -> (r: DBHandler)
        ensures
            r.api_url@ == api_url@,
    {
        DBHandler { api_url }
    }
}

} // verus!
