use rubiks::daily::{
    DailySolve, DailySolveDto, DailySolveError, DailySolveListDto, DailySolveRequestDto,
    DailySolveRow,
};
use rubiks::scramble::daily_seed;

fn solve(username: &str, time: i32) -> DailySolve {
    DailySolve {
        username: username.to_string(),
        date: 739_000,
        time,
    }
}

#[test]
fn a_solve_with_a_name_and_a_time_is_accepted() {
    assert_eq!(solve("ada", 1).validate(), Ok(()));
    assert_eq!(solve("ada", 12_345).validate(), Ok(()));
    assert_eq!(solve("a", i32::MAX).validate(), Ok(()));
}

#[test]
fn a_solve_without_a_time_is_refused() {
    assert_eq!(solve("ada", 0).validate(), Err(DailySolveError::InvalidTime));
    assert_eq!(solve("ada", -1).validate(), Err(DailySolveError::InvalidTime));
    assert_eq!(solve("ada", i32::MIN).validate(), Err(DailySolveError::InvalidTime));
}

#[test]
fn a_solve_without_a_name_is_refused() {
    assert_eq!(solve("", 1).validate(), Err(DailySolveError::EmptyUsername));
}

#[test]
fn the_time_is_looked_at_before_the_name() {
    assert_eq!(solve("", 0).validate(), Err(DailySolveError::InvalidTime));
}

#[test]
fn errors_tell_what_is_wrong() {
    assert_eq!(DailySolveError::InvalidTime.message(), "time is invalid.");
    assert_eq!(DailySolveError::EmptyUsername.message(), "username is empty.");
}

#[test]
fn a_request_becomes_a_solve_of_the_day() {
    let request = DailySolveRequestDto {
        username: "ada".to_string(),
        time: 42,
    };
    let solve = DailySolve::from_request(request, 739_123);

    assert_eq!(solve.username, "ada");
    assert_eq!(solve.date, 739_123);
    assert_eq!(solve.time, 42);
}

#[test]
fn a_row_becomes_a_solve() {
    let row = DailySolveRow {
        username: "grace".to_string(),
        date: 739_001,
        time: 9_876,
    };
    let solve = DailySolve::from(row);

    assert_eq!(solve.username, "grace");
    assert_eq!(solve.date, 739_001);
    assert_eq!(solve.time, 9_876);
}

#[test]
fn the_leaderboard_shows_names_and_times_in_order() {
    let dto = DailySolveDto::from(solve("ada", 10));
    assert_eq!(dto.username, "ada");
    assert_eq!(dto.time, 10);

    let list = DailySolveListDto::from_solves(&vec![solve("ada", 10), solve("grace", 20)]);
    assert_eq!(list.solves.len(), 2);
    assert_eq!(list.solves[0].username, "ada");
    assert_eq!(list.solves[0].time, 10);
    assert_eq!(list.solves[1].username, "grace");
    assert_eq!(list.solves[1].time, 20);

    assert!(DailySolveListDto::from_solves(&vec![]).solves.is_empty());
}

#[test]
fn the_seed_of_a_day_writes_its_date_as_one_number() {
    assert_eq!(daily_seed(2026, 10, 28), 20_261_028);
    assert_eq!(daily_seed(2024, 2, 29), 20_240_229);
    assert_eq!(daily_seed(0, 1, 1), 101);
    assert_eq!(daily_seed(262_142, 12, 31), 2_621_421_231);
}
