use workout_bot::error::ParseWorkoutError;
use workout_bot::workout_model::{Exercise, Workout};

fn exercise(name: &str, sets: i32, repetitions: i32, load: i32) -> Exercise {
    Exercise::new(name.to_string(), sets, repetitions, load)
}

#[test]
fn exercise_line_parses() {
    assert_eq!(Exercise::from_str("Bench:3:10:80"), Ok(exercise("Bench", 3, 10, 80)));
}

#[test]
fn exercise_line_ignores_fields_after_the_fourth() {
    assert_eq!(Exercise::from_str("Bench:3:10:80:heavy:x"), Ok(exercise("Bench", 3, 10, 80)));
}

#[test]
fn exercise_name_is_kept_raw() {
    assert_eq!(Exercise::from_str(" Bench press :3:10:80"), Ok(exercise(" Bench press ", 3, 10, 80)));
    assert_eq!(Exercise::from_str(":1:2:3"), Ok(exercise("", 1, 2, 3)));
}

#[test]
fn exercise_numbers_take_a_sign() {
    assert_eq!(Exercise::from_str("Dip:+3:-10:0"), Ok(exercise("Dip", 3, -10, 0)));
    assert_eq!(
        Exercise::from_str("Max:2147483647:-2147483648:007"),
        Ok(exercise("Max", i32::MAX, i32::MIN, 7))
    );
}

#[test]
fn exercise_line_missing_a_number_is_malformed() {
    assert_eq!(Exercise::from_str("Bench:3:10"), Err(ParseWorkoutError::MalformedExerciseField));
    assert_eq!(Exercise::from_str("Bench"), Err(ParseWorkoutError::MalformedExerciseField));
    assert_eq!(Exercise::from_str(""), Err(ParseWorkoutError::MalformedExerciseField));
    assert_eq!(Exercise::from_str("Bench:3:10:"), Err(ParseWorkoutError::MalformedExerciseField));
}

#[test]
fn exercise_line_with_text_in_a_number_is_malformed() {
    let bad = ["Bench:3:ten:80", "Bench: 3:10:80", "Bench:3:10:80kg", "Bench:+:1:1", "Bench:-:1:1",
        "Bench:3.5:10:80", "Bench:2147483648:1:1", "Bench:-2147483649:1:1", "Bench:+-3:1:1"];
    for line in bad {
        assert_eq!(Exercise::from_str(line), Err(ParseWorkoutError::MalformedExerciseField), "{line}");
    }
}

#[test]
fn exercise_line_round_trip() {
    let cases = [
        exercise("Bench", 3, 10, 80),
        exercise("", 0, 0, 0),
        exercise("Leg press 45°", -1, 12, 250),
        exercise("Edge", i32::MIN, i32::MAX, -7),
    ];
    for e in cases {
        let line = e.to_line();
        assert_eq!(Exercise::from_str(&line), Ok(e.clone()));
    }
    assert_eq!(exercise("Row", -3, 10, 0).to_line(), "Row:-3:10:0");
}

#[test]
fn exercise_summary_text() {
    assert_eq!(exercise("Bench", 3, 10, 80).to_string(), "Bench: 3x10 with 80 kgs.");
    assert_eq!(exercise("Pull", -1, 0, 125).to_string(), "Pull: -1x0 with 125 kgs.");
}

#[test]
fn total_workload_multiplies() {
    assert_eq!(exercise("Bench", 3, 10, 80).total_workload(), 2400);
    assert_eq!(exercise("Plank", 100000, 100000, 0).total_workload(), 0);
    assert_eq!(exercise("Neg", -2, 5, 3).total_workload(), -30);
}

#[test]
fn workout_parses_header_and_exercises() {
    let w = Workout::from_str("2024-01-01:Push:Chest\nBench:3:10:80\nFly:4:12:20").unwrap();
    assert_eq!(w.workout_date(), "2024-01-01");
    assert_eq!(w.workout_type(), "Push");
    assert_eq!(w.targeted_muscles(), "Chest");
    assert_eq!(*w.exercises(), vec![exercise("Bench", 3, 10, 80), exercise("Fly", 4, 12, 20)]);
}

#[test]
fn workout_header_ignores_fields_after_the_third() {
    let w = Workout::from_str("d:t:m:extra\nRow:1:2:3").unwrap();
    assert_eq!(w.workout_date(), "d");
    assert_eq!(w.targeted_muscles(), "m");
    assert_eq!(*w.exercises(), vec![exercise("Row", 1, 2, 3)]);
}

#[test]
fn short_header_fails_whatever_follows() {
    for text in ["", "a", "a:b", "a:b\nBench:3:10:80", "2024-01-01:Push\nBench:3:10:80\nFly:4:12:20", "\na:b:c"] {
        assert!(matches!(Workout::from_str(text), Err(ParseWorkoutError::MalformedMetadata)), "{text:?}");
    }
}

#[test]
fn header_without_valid_lines_has_no_exercises() {
    for text in ["d:t:m", "d:t:m\n", "d:t:m\nbad\nBench:3:10\nx:a:b:c", "::"] {
        let w = Workout::from_str(text).unwrap();
        assert!(w.exercises().is_empty(), "{text:?}");
    }
}

#[test]
fn malformed_lines_leave_neighbours_alone() {
    let w = Workout::from_str("d:t:m\nBench:3:10:80\nbad:x:1:2\n\nFly:4:12:20\nOnly:1:2").unwrap();
    assert_eq!(*w.exercises(), vec![exercise("Bench", 3, 10, 80), exercise("Fly", 4, 12, 20)]);
    let clean = Workout::from_str("d:t:m\nBench:3:10:80\nFly:4:12:20").unwrap();
    assert_eq!(w.exercises(), clean.exercises());
}

#[test]
fn workout_summary_text() {
    let w = Workout::from_str("2024-01-01:Push:Chest\nBench:3:10:80\nFly:4:12:20").unwrap();
    assert_eq!(
        w.to_string(),
        "Push Chest workout, done at 2024-01-01. Exercises: Bench: 3x10 with 80 kgs. Fly: 4x12 with 20 kgs."
    );
    let empty = Workout::from_str("d:t:m").unwrap();
    assert_eq!(empty.to_string(), "t m workout, done at d. Exercises:");
}
