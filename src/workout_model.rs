//! Exercises and workouts: their text forms and how they are parsed.

use vstd::prelude::*;

use crate::error::ParseWorkoutError;
use crate::text::{
    i32_text, int_text, lemma_int_text_chars, lemma_int_text_parses, lemma_split_at_first,
    lemma_split_nonempty, lemma_split_without_sep, parse_i32, parse_i32_spec, split_on,
    split_spec, views_of,
};

verus! {

/// One movement within a workout.
#[derive(Debug, Clone, PartialEq, Eq)]
pub struct Exercise {
    exercise_name: String,
    sets: i32,
    repetitions: i32,
    load: i32,
}

/// The mathematical content of an [`Exercise`].
pub struct ExerciseView {
    pub name: Seq<char>,
    pub sets: i32,
    pub repetitions: i32,
    pub load: i32,
}

impl View for Exercise {
    type V = ExerciseView;

    closed spec fn view(&self) -> ExerciseView {
        ExerciseView {
            name: self.exercise_name@,
            sets: self.sets,
            repetitions: self.repetitions,
            load: self.load,
        }
    }
}

/// The exercise that one colon-separated line describes: the first field is
/// the name, kept as it is, and the next three are sets, repetitions and load,
/// each an integer; fields after the fourth are ignored.
pub open spec fn parse_exercise_spec(line: Seq<char>) -> Option<ExerciseView> {
    let f = split_spec(line, ':');
    if f.len() < 4 {
        None
    } else {
        match (parse_i32_spec(f[1]), parse_i32_spec(f[2]), parse_i32_spec(f[3])) {
            (Some(sets), Some(repetitions), Some(load)) => Some(
                ExerciseView { name: f[0], sets, repetitions, load },
            ),
            _ => None,
        }
    }
}

/// The line `name:sets:repetitions:load` that describes `e`.
pub open spec fn exercise_line(e: ExerciseView) -> Seq<char> {
    e.name + seq![':'] + int_text(e.sets as int) + seq![':'] + int_text(e.repetitions as int)
        + seq![':'] + int_text(e.load as int)
}

/// The human-readable summary of `e`, as `Bench: 3x10 with 80 kgs.`.
pub open spec fn exercise_text(e: ExerciseView) -> Seq<char> {
    e.name + ": "@ + int_text(e.sets as int) + "x"@ + int_text(e.repetitions as int) + " with "@
        + int_text(e.load as int) + " kgs."@
}

impl Exercise {
    /// An exercise with the given name, sets, repetitions and load.
    pub fn new(exercise_name: String, sets: i32, repetitions: i32, load: i32) -> (r: Exercise)
        ensures
            r@ == (ExerciseView { name: exercise_name@, sets, repetitions, load }),
    {
        Exercise { exercise_name, sets, repetitions, load }
    }

    /// The name, as it stood in its line.
    pub fn exercise_name(&self) -> (r: &str)
        ensures
            r@ == self@.name,
    {
        self.exercise_name.as_str()
    }

    /// The number of sets.
    pub fn sets(&self) -> (r: i32)
        ensures
            r == self@.sets,
    {
        self.sets
    }

    /// The repetitions per set.
    pub fn repetitions(&self) -> (r: i32)
        ensures
            r == self@.repetitions,
    {
        self.repetitions
    }

    /// The load per repetition.
    pub fn load(&self) -> (r: i32)
        ensures
            r == self@.load,
    {
        self.load
    }

    /// Sets times repetitions times load.
    pub fn total_workload(&self) -> (r: i32)
        requires
            i32::MIN <= self@.sets as int * self@.repetitions as int * self@.load as int
                <= i32::MAX,
        ensures
            r as int == self@.sets as int * self@.repetitions as int * self@.load as int,
    {
        let a = self.sets as i128;
        let b = self.repetitions as i128;
        let c = self.load as i128;
        assert(-0x4000_0000_0000_0000 <= a * b <= 0x4000_0000_0000_0000) by (nonlinear_arith)
            requires
                -0x8000_0000 <= a <= 0x7fff_ffff,
                -0x8000_0000 <= b <= 0x7fff_ffff,
        ;
        let ab = a * b;
        assert(-0x2000_0000_0000_0000_0000_0000 <= ab * c <= 0x2000_0000_0000_0000_0000_0000)
            by (nonlinear_arith)
            requires
                -0x4000_0000_0000_0000 <= ab <= 0x4000_0000_0000_0000,
                -0x8000_0000 <= c <= 0x7fff_ffff,
        ;
        (ab * c) as i32
    }

    /// Parses one exercise line of the form `name:sets:repetitions:load`.
    pub fn from_str(s: &str) -> (r: Result<Exercise, ParseWorkoutError>)
        ensures
            match r {
                Ok(e) => parse_exercise_spec(s@) == Some(e@),
                Err(err) => parse_exercise_spec(s@) is None && err
                    == ParseWorkoutError::MalformedExerciseField,
            },
    {
        let fields = split_on(s, ':');
        proof {
            assert(views_of(fields@).len() == fields@.len());
        }
        if fields.len() < 4 {
            return Err(ParseWorkoutError::MalformedExerciseField);
        }
        proof {
            assert(views_of(fields@)[1] == fields@[1]@);
            assert(views_of(fields@)[2] == fields@[2]@);
            assert(views_of(fields@)[3] == fields@[3]@);
            assert(views_of(fields@)[0] == fields@[0]@);
        }
        let sets = parse_i32(fields[1]);
        let repetitions = parse_i32(fields[2]);
        let load = parse_i32(fields[3]);
        match (sets, repetitions, load) {
            (Some(sets), Some(repetitions), Some(load)) => Ok(
                Exercise { exercise_name: fields[0].to_owned(), sets, repetitions, load },
            ),
            _ => Err(ParseWorkoutError::MalformedExerciseField),
        }
    }

    /// The line `name:sets:repetitions:load` that [`Exercise::from_str`] reads back.
    pub fn to_line(&self) -> (r: String)
        ensures
            r@ == exercise_line(self@),
    {
        let mut r = self.exercise_name.clone();
        r.append(":");
        r.append(i32_text(self.sets).as_str());
        r.append(":");
        r.append(i32_text(self.repetitions).as_str());
        r.append(":");
        r.append(i32_text(self.load).as_str());
        proof {
            reveal_strlit(":");
        }
        r
    }

    /// The human-readable summary, as `Bench: 3x10 with 80 kgs.`.
    pub fn to_string(&self) -> (r: String)
        ensures
            r@ == exercise_text(self@),
    {
        let mut r = self.exercise_name.clone();
        r.append(": ");
        r.append(i32_text(self.sets).as_str());
        r.append("x");
        r.append(i32_text(self.repetitions).as_str());
        r.append(" with ");
        r.append(i32_text(self.load).as_str());
        r.append(" kgs.");
        r
    }
}

/// One logged training session.
#[derive(Debug, Clone)]
pub struct Workout {
    workout_date: String,
    workout_type: String,
    targeted_muscles: String,
    exercises: Vec<Exercise>,
}

/// The mathematical content of a [`Workout`].
pub struct WorkoutView {
    pub date: Seq<char>,
    pub workout_type: Seq<char>,
    pub targeted_muscles: Seq<char>,
    pub exercises: Seq<ExerciseView>,
}

/// The views of a sequence of exercises.
pub open spec fn exercise_views(v: Seq<Exercise>) -> Seq<ExerciseView> {
    v.map_values(|e: Exercise| e@)
}

impl View for Workout {
    type V = WorkoutView;

    closed spec fn view(&self) -> WorkoutView {
        WorkoutView {
            date: self.workout_date@,
            workout_type: self.workout_type@,
            targeted_muscles: self.targeted_muscles@,
            exercises: exercise_views(self.exercises@),
        }
    }
}

/// The exercises that `lines` describe, in order, leaving out each line that
/// does not parse.
pub open spec fn parsed_lines(lines: Seq<Seq<char>>) -> Seq<ExerciseView>
    decreases lines.len(),
{
    if lines.len() == 0 {
        Seq::empty()
    } else {
        let rest = parsed_lines(lines.drop_last());
        match parse_exercise_spec(lines.last()) {
            Some(e) => rest.push(e),
            None => rest,
        }
    }
}

/// The workout that `s` describes: its first line holds date, type and
/// targeted muscles separated by `:` (fields after the third are ignored),
/// and each further line an exercise. `None` where the first line has fewer
/// than three fields.
pub open spec fn parse_workout_spec(s: Seq<char>) -> Option<WorkoutView> {
    let lines = split_spec(s, '\n');
    let meta = split_spec(lines[0], ':');
    if meta.len() < 3 {
        None
    } else {
        Some(
            WorkoutView {
                date: meta[0],
                workout_type: meta[1],
                targeted_muscles: meta[2],
                exercises: parsed_lines(lines.skip(1)),
            },
        )
    }
}

/// The summaries of `es`, each after a space.
pub open spec fn exercises_text(es: Seq<ExerciseView>) -> Seq<char>
    decreases es.len(),
{
    if es.len() == 0 {
        Seq::empty()
    } else {
        exercises_text(es.drop_last()) + " "@ + exercise_text(es.last())
    }
}

/// The human-readable summary of `w`, as
/// `Push Chest workout, done at 2024-01-01. Exercises: Bench: 3x10 with 80 kgs.`.
pub open spec fn workout_text(w: WorkoutView) -> Seq<char> {
    w.workout_type + " "@ + w.targeted_muscles + " workout, done at "@ + w.date + ". Exercises:"@
        + exercises_text(w.exercises)
}

impl Workout {
    /// A workout with the given header fields and exercises, in order.
    pub fn new(
        workout_date: String,
        workout_type: String,
        targeted_muscles: String,
        exercises: Vec<Exercise>,
    ) -> (r: Workout)
        ensures
            r@ == (WorkoutView {
                date: workout_date@,
                workout_type: workout_type@,
                targeted_muscles: targeted_muscles@,
                exercises: exercise_views(exercises@),
            }),
    {
        Workout { workout_date, workout_type, targeted_muscles, exercises }
    }

    /// The date, as written in the header.
    pub fn workout_date(&self) -> (r: &str)
        ensures
            r@ == self@.date,
    {
        self.workout_date.as_str()
    }

    /// The kind of session, as written in the header.
    pub fn workout_type(&self) -> (r: &str)
        ensures
            r@ == self@.workout_type,
    {
        self.workout_type.as_str()
    }

    /// The muscle group, as written in the header.
    pub fn targeted_muscles(&self) -> (r: &str)
        ensures
            r@ == self@.targeted_muscles,
    {
        self.targeted_muscles.as_str()
    }

    /// The exercises, in the order of their lines.
    pub fn exercises(&self) -> (r: &Vec<Exercise>)
        ensures
            exercise_views(r@) == self@.exercises,
    {
        &self.exercises
    }

    /// Parses a workout: a header line `date:type:muscles`, then one exercise
    /// per line. Lines that are not exercises are dropped.
    pub fn from_str(s: &str) -> (r: Result<Workout, ParseWorkoutError>)
        ensures
            match r {
                Ok(w) => parse_workout_spec(s@) == Some(w@),
                Err(err) => parse_workout_spec(s@) is None && err
                    == ParseWorkoutError::MalformedMetadata,
            },
    {
        let lines = split_on(s, '\n');
        proof {
            lemma_split_nonempty(s@, '\n');
            assert(views_of(lines@)[0] == lines@[0]@);
        }
        let meta = split_on(lines[0], ':');
        proof {
            assert(views_of(meta@).len() == meta@.len());
        }
        if meta.len() < 3 {
            return Err(ParseWorkoutError::MalformedMetadata);
        }
        proof {
            assert(views_of(meta@)[0] == meta@[0]@);
            assert(views_of(meta@)[1] == meta@[1]@);
            assert(views_of(meta@)[2] == meta@[2]@);
        }
        let ghost all = views_of(lines@);
        let mut exercises: Vec<Exercise> = Vec::new();
        let mut i: usize = 1;
        assert(all.subrange(1, 1) =~= Seq::<Seq<char>>::empty());
        while i < lines.len()
            invariant
                all == views_of(lines@),
                1 <= i <= lines@.len(),
                all.len() == lines@.len(),
                exercise_views(exercises@) == parsed_lines(all.subrange(1, i as int)),
            decreases lines@.len() - i,
        {
            let ghost before = all.subrange(1, i as int);
            let ghost after = all.subrange(1, i + 1);
            let ghost done = exercise_views(exercises@);
            assert(after.drop_last() =~= before);
            assert(after.last() == lines@[i as int]@);
            match Exercise::from_str(lines[i]) {
                Ok(e) => {
                    exercises.push(e);
                    assert(exercise_views(exercises@) =~= done.push(e@));
                },
                Err(_) => {},
            }
            i = i + 1;
        }
        assert(all.subrange(1, all.len() as int) =~= all.skip(1));
        Ok(
            Workout {
                workout_date: meta[0].to_owned(),
                workout_type: meta[1].to_owned(),
                targeted_muscles: meta[2].to_owned(),
                exercises,
            },
        )
    }

    /// The human-readable summary of the workout and its exercises.
    pub fn to_string(&self) -> (r: String)
        ensures
            r@ == workout_text(self@),
    {
        let mut r = self.workout_type.clone();
        r.append(" ");
        r.append(self.targeted_muscles.as_str());
        r.append(" workout, done at ");
        r.append(self.workout_date.as_str());
        r.append(". Exercises:");
        let ghost head = r@;
        let ghost es = exercise_views(self.exercises@);
        let mut i: usize = 0;
        assert(es.subrange(0, 0) =~= Seq::<ExerciseView>::empty());
        while i < self.exercises.len()
            invariant
                es == exercise_views(self.exercises@),
                i <= self.exercises@.len(),
                es.len() == self.exercises@.len(),
                r@ == head + exercises_text(es.subrange(0, i as int)),
            decreases self.exercises@.len() - i,
        {
            let ghost after = es.subrange(0, i + 1);
            assert(after.drop_last() =~= es.subrange(0, i as int));
            r.append(" ");
            r.append(self.exercises[i].to_string().as_str());
            assert(r@ =~= head + exercises_text(after));
            i = i + 1;
        }
        assert(es.subrange(0, i as int) =~= es);
        r
    }
}

/// Writing an exercise as a line and parsing that line gives the same name,
/// sets, repetitions and load back, provided the name holds no `:`.
pub proof fn lemma_exercise_line_round_trip(e: ExerciseView)
    requires
        !e.name.contains(':'),
    ensures
        parse_exercise_spec(exercise_line(e)) == Some(e),
{
    let a = int_text(e.sets as int);
    let b = int_text(e.repetitions as int);
    let c = int_text(e.load as int);
    lemma_int_text_chars(e.sets as int, ':');
    lemma_int_text_chars(e.repetitions as int, ':');
    lemma_int_text_chars(e.load as int, ':');
    let tail2 = b + seq![':'] + c;
    let tail1 = a + seq![':'] + tail2;
    assert(exercise_line(e) =~= e.name + seq![':'] + tail1);
    lemma_split_at_first(e.name, tail1, ':');
    lemma_split_at_first(a, tail2, ':');
    lemma_split_at_first(b, c, ':');
    lemma_split_without_sep(c, ':');
    assert(split_spec(exercise_line(e), ':') =~= seq![e.name, a, b, c]);
    lemma_int_text_parses(e.sets);
    lemma_int_text_parses(e.repetitions);
    lemma_int_text_parses(e.load);
}

/// The first line of `header`, followed by a newline and `rest`, is `header`,
/// and the lines after it are those of `rest`.
proof fn lemma_lines_of(header: Seq<char>, rest: Seq<char>)
    requires
        !header.contains('\n'),
    ensures
        split_spec(header, '\n') == seq![header],
        split_spec(header + seq!['\n'] + rest, '\n')[0] == header,
        split_spec(header + seq!['\n'] + rest, '\n').skip(1) == split_spec(rest, '\n'),
{
    lemma_split_without_sep(header, '\n');
    lemma_split_at_first(header, rest, '\n');
    assert(split_spec(header + seq!['\n'] + rest, '\n').skip(1) =~= split_spec(rest, '\n'));
}

/// A workout whose header line has fewer than three `:`-separated fields is
/// refused, whatever the lines after it hold.
pub proof fn lemma_short_header_refused(header: Seq<char>, rest: Seq<char>)
    requires
        !header.contains('\n'),
        split_spec(header, ':').len() < 3,
    ensures
        parse_workout_spec(header) is None,
        parse_workout_spec(header + seq!['\n'] + rest) is None,
{
    lemma_lines_of(header, rest);
}

/// Lines none of which is an exercise give no exercises.
proof fn lemma_no_exercise_lines(lines: Seq<Seq<char>>)
    requires
        forall|i: int| 0 <= i < lines.len() ==> parse_exercise_spec(#[trigger] lines[i]) is None,
    ensures
        parsed_lines(lines) == Seq::<ExerciseView>::empty(),
    decreases lines.len(),
{
    if lines.len() > 0 {
        let init = lines.drop_last();
        assert forall|i: int| 0 <= i < init.len() implies parse_exercise_spec(
            #[trigger] init[i],
        ) is None by {
            assert(init[i] == lines[i]);
        }
        lemma_no_exercise_lines(init);
        assert(parse_exercise_spec(lines[lines.len() - 1]) is None);
    }
}

/// A workout whose header holds at least three fields, and none of whose
/// further lines is an exercise, parses, with no exercises.
pub proof fn lemma_no_valid_exercise_lines(header: Seq<char>, rest: Seq<char>)
    requires
        !header.contains('\n'),
        split_spec(header, ':').len() >= 3,
        forall|i: int|
            0 <= i < split_spec(rest, '\n').len() ==> parse_exercise_spec(
                #[trigger] split_spec(rest, '\n')[i],
            ) is None,
    ensures
        parse_workout_spec(header) == Some(
            WorkoutView {
                date: split_spec(header, ':')[0],
                workout_type: split_spec(header, ':')[1],
                targeted_muscles: split_spec(header, ':')[2],
                exercises: Seq::empty(),
            },
        ),
        parse_workout_spec(header + seq!['\n'] + rest) == Some(
            WorkoutView {
                date: split_spec(header, ':')[0],
                workout_type: split_spec(header, ':')[1],
                targeted_muscles: split_spec(header, ':')[2],
                exercises: Seq::empty(),
            },
        ),
{
    lemma_lines_of(header, rest);
    lemma_no_exercise_lines(split_spec(rest, '\n'));
    assert(seq![header].skip(1) =~= Seq::<Seq<char>>::empty());
    lemma_no_exercise_lines(seq![header].skip(1));
}

/// The exercises of two runs of lines are those of the first, then those of
/// the second.
pub proof fn lemma_parsed_lines_concat(a: Seq<Seq<char>>, b: Seq<Seq<char>>)
    ensures
        parsed_lines(a + b) == parsed_lines(a) + parsed_lines(b),
    decreases b.len(),
{
    if b.len() == 0 {
        assert(a + b =~= a);
        assert(parsed_lines(a) + parsed_lines(b) =~= parsed_lines(a));
    } else {
        lemma_parsed_lines_concat(a, b.drop_last());
        assert((a + b).drop_last() =~= a + b.drop_last());
        assert((a + b).last() == b.last());
        match parse_exercise_spec(b.last()) {
            Some(e) => {
                assert(parsed_lines(a + b) =~= parsed_lines(a) + parsed_lines(b));
            },
            None => {},
        }
    }
}

/// A line that is not an exercise is dropped, and the lines around it give
/// the same exercises as they would without it.
pub proof fn lemma_malformed_line_dropped(
    before: Seq<Seq<char>>,
    bad: Seq<char>,
    after: Seq<Seq<char>>,
)
    requires
        parse_exercise_spec(bad) is None,
    ensures
        parsed_lines(before + seq![bad] + after) == parsed_lines(before + after),
        parsed_lines(before + after) == parsed_lines(before) + parsed_lines(after),
{
    lemma_parsed_lines_concat(before, after);
    lemma_parsed_lines_concat(before + seq![bad], after);
    assert(seq![bad].drop_last() =~= Seq::<Seq<char>>::empty());
    assert(seq![bad].last() == bad);
    assert(parsed_lines(Seq::<Seq<char>>::empty()) == Seq::<ExerciseView>::empty());
    lemma_parsed_lines_concat(before, seq![bad]);
    assert(parsed_lines(seq![bad]) =~= Seq::<ExerciseView>::empty());
    assert(parsed_lines(before) + parsed_lines(seq![bad]) =~= parsed_lines(before));
}

} // verus!
