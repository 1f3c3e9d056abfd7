use workout_bot::error::{ParseWorkoutError, ValidationError};
use workout_bot::process_task::{
    dispatch, new_workout, process_message, register_exercise, split_message,
    storage_failure_reply, validate_workout, validate_workout_against, Action, Command,
    DBHandler, INVALID_COMMAND_REPLY, NO_COMMAND_REPLY, UNPARSABLE_WORKOUT_REPLY,
};
use workout_bot::workout_model::{Exercise, Workout};

fn exercise(name: &str, sets: i32, repetitions: i32, load: i32) -> Exercise {
    Exercise::new(name.to_string(), sets, repetitions, load)
}

fn reply_text(action: Action) -> String {
    match action {
        Action::Reply(text) => text,
        Action::StoreThenReply { .. } => panic!("expected a plain reply"),
    }
}

#[test]
fn scenario_new_workout_parses_two_exercises() {
    let action = process_message("/new_workout\n2024-01-01:Push:Chest\nBench:3:10:80\nFly:4:12:20");
    match action {
        Action::StoreThenReply { workout, confirmation } => {
            assert_eq!(workout.workout_date(), "2024-01-01");
            assert_eq!(workout.workout_type(), "Push");
            assert_eq!(workout.targeted_muscles(), "Chest");
            assert_eq!(
                *workout.exercises(),
                vec![exercise("Bench", 3, 10, 80), exercise("Fly", 4, 12, 20)]
            );
            assert_eq!(
                confirmation,
                "Push Chest workout, done at 2024-01-01. Exercises: Bench: 3x10 with 80 kgs. Fly: 4x12 with 20 kgs."
            );
        }
        Action::Reply(text) => panic!("unexpected reply {text}"),
    }
}

#[test]
fn scenario_one_field_header_is_malformed_metadata() {
    let parsed = Workout::from_str("only-one-field");
    assert!(matches!(parsed, Err(ParseWorkoutError::MalformedMetadata)));
    let reply = reply_text(process_message("/new_workout\nonly-one-field"));
    assert_eq!(reply, UNPARSABLE_WORKOUT_REPLY);
}

#[test]
fn scenario_register_exercise_echoes_parameter() {
    let reply = reply_text(process_message("/register_exercise\nSquat:5:5:100"));
    assert!(reply.contains("Squat:5:5:100"));
    assert_eq!(reply, "Command: InsertExercise\nPar: \"Squat:5:5:100\"");
}

#[test]
fn scenario_unknown_command_is_rejected() {
    let reply = reply_text(process_message("/unknown_thing\nfoo"));
    assert_eq!(reply, INVALID_COMMAND_REPLY);
    assert_eq!(reply, "Please, make sure to send a valid command.");
}

#[test]
fn scenario_no_newline_is_missing_body() {
    assert!(matches!(split_message("/new_workout"), Err(ParseWorkoutError::MissingBody)));
    let reply = reply_text(process_message("/new_workout"));
    assert_eq!(reply, NO_COMMAND_REPLY);
    assert_eq!(reply, "No command received.");
}

#[test]
fn split_message_cuts_at_first_newline() {
    let (header, body) = split_message("/new_workout\na:b:c\nx:1:2:3").unwrap();
    assert_eq!(header, "/new_workout");
    assert_eq!(body, "a:b:c\nx:1:2:3");
    let (header, body) = split_message("\n").unwrap();
    assert_eq!(header, "");
    assert_eq!(body, "");
}

#[test]
fn classification_of_known_commands_after_trimming() {
    assert_eq!(Command::from_str("/new_workout"), Ok(Command::NewWorkout));
    assert_eq!(Command::from_str("  /new_workout \t"), Ok(Command::NewWorkout));
    assert_eq!(Command::from_str("/register_exercise"), Ok(Command::RegisterExercise));
    assert_eq!(Command::from_str("\t/register_exercise\r"), Ok(Command::RegisterExercise));
}

#[test]
fn classification_of_other_text_wraps_trimmed_text() {
    assert_eq!(
        Command::from_str("  /unknown_thing  "),
        Ok(Command::UnknownCommand("/unknown_thing".to_string()))
    );
    assert_eq!(
        Command::from_str("/New_Workout"),
        Ok(Command::UnknownCommand("/New_Workout".to_string()))
    );
    assert_eq!(
        Command::from_str("/new_workout_now"),
        Ok(Command::UnknownCommand("/new_workout_now".to_string()))
    );
    assert_eq!(Command::from_str(""), Ok(Command::UnknownCommand(String::new())));
    assert_eq!(Command::from_trimmed(" /new_workout"), Command::UnknownCommand(" /new_workout".to_string()));
    assert_eq!(Command::from_trimmed("/new_workout"), Command::NewWorkout);
}

#[test]
fn header_with_surrounding_spaces_still_dispatches() {
    let action = process_message("  /new_workout  \nd:t:m");
    assert!(matches!(action, Action::StoreThenReply { .. }));
}

#[test]
fn dispatch_follows_the_command() {
    let reply = reply_text(dispatch(&Command::RegisterExercise, "a\nb".to_string()));
    assert_eq!(reply, "Command: InsertExercise\nPar: \"a\nb\"");
    let reply = reply_text(dispatch(&Command::UnknownCommand("x".to_string()), "d:t:m".to_string()));
    assert_eq!(reply, INVALID_COMMAND_REPLY);
    let action = dispatch(&Command::NewWorkout, "d:t:m\nRow:1:2:3".to_string());
    match action {
        Action::StoreThenReply { workout, confirmation } => {
            assert_eq!(*workout.exercises(), vec![exercise("Row", 1, 2, 3)]);
            assert_eq!(confirmation, "t m workout, done at d. Exercises: Row: 1x2 with 3 kgs.");
        }
        Action::Reply(text) => panic!("unexpected reply {text}"),
    }
}

#[test]
fn new_workout_reports_unparsable_text() {
    let reply = reply_text(new_workout("a:b\nBench:3:10:80".to_string()));
    assert_eq!(reply, "Unable to parse the provided text to workout, please try again.");
}

#[test]
fn register_exercise_keeps_text_verbatim() {
    assert_eq!(register_exercise(String::new()), "Command: InsertExercise\nPar: \"\"");
    assert_eq!(register_exercise("Squat:x".to_string()), "Command: InsertExercise\nPar: \"Squat:x\"");
}

#[test]
fn validation_accepts_by_default() {
    let workout = Workout::from_str("d:t:m\nRow:1:2:3").unwrap();
    let validated = validate_workout(workout).unwrap();
    assert_eq!(validated.workout_date(), "d");
    assert_eq!(validated.exercises().len(), 1);
}

#[test]
fn validation_against_history() {
    let workout = Workout::from_str("d:t:m").unwrap();
    assert!(validate_workout_against(workout.clone(), None).is_ok());
    assert!(validate_workout_against(workout.clone(), Some(false)).is_ok());
    assert!(matches!(
        validate_workout_against(workout, Some(true)),
        Err(ValidationError::DuplicateDay)
    ));
}

#[test]
fn storage_failure_reply_names_the_error() {
    assert_eq!(
        storage_failure_reply("connection refused"),
        "Could not load workout to database, please check and try again. Error: connection refused."
    );
}

#[test]
fn db_handler_keeps_its_address() {
    let handler = DBHandler::new("http://localhost:8000/workouts".to_string());
    assert_eq!(handler.api_url, "http://localhost:8000/workouts");
}
