use vstd::prelude::*;
use vstd::std_specs::convert::FromSpecImpl;

verus! {

/// One solve of the scramble of the day: who solved it, on which day
/// (counted in days from the start of the common era), and in how long.
#[derive(Debug, Clone)]
pub struct DailySolve {
    pub username: String,
    pub date: i32,
    pub time: i32,
}

/// A solve as the store keeps it.
#[derive(Debug, Clone)]
pub struct DailySolveRow {
    pub username: String,
    pub date: i32,
    pub time: i32,
}

/// A solve as a client hands it in: the day is the day of the request.
#[derive(Debug, Clone)]
pub struct DailySolveRequest {
    pub username: String,
    pub time: i32,
}

/// A solve as a client hands it in over the wire.
#[derive(Debug, Clone)]
pub struct DailySolveRequestDto {
    pub username: String,
    pub time: i32,
}

/// A solve as the leaderboard shows it.
#[derive(Debug, Clone)]
pub struct DailySolveDto {
    pub username: String,
    pub time: i32,
}

/// The leaderboard of one day.
#[derive(Debug, Clone)]
pub struct DailySolveListDto {
    pub solves: Vec<DailySolveDto>,
}

/// Why a solve is not accepted.
#[derive(Debug, Clone, Copy, PartialEq, Eq, Structural)]
pub enum DailySolveError {
    /// The time is zero or less.
    InvalidTime,
    /// The name of the solver is empty.
    EmptyUsername,
}

impl DailySolveError {
    /// The sentence that tells the client what is wrong.
    pub fn message(&self) -> (sentence: String)
        ensures
            sentence@ == match self {
                DailySolveError::InvalidTime => "time is invalid."@,
                DailySolveError::EmptyUsername => "username is empty."@,
            },
    {
        match self {
            DailySolveError::InvalidTime => "time is invalid.".to_owned(),
            DailySolveError::EmptyUsername => "username is empty.".to_owned(),
        }
    }
}

impl DailySolve {
    /// What stands in the way of accepting the solve, if anything does: the
    /// time is looked at first.
    pub open spec fn defect(self) -> Option<DailySolveError> {
        if self.time <= 0 {
            Some(DailySolveError::InvalidTime)
        } else if self.username@.len() == 0 {
            Some(DailySolveError::EmptyUsername)
        } else {
            None
        }
    }

    /// Accepts a solve with a time above zero and a name that is not empty.
    pub fn validate(&self) -> (result: Result<(), DailySolveError>)
        ensures
            match result {
                Ok(_) => self.defect() is None,
                Err(error) => self.defect() == Some(error),
            },
    {
        if self.time <= 0 {
            return Err(DailySolveError::InvalidTime);
        }
        if self.username.as_str().is_empty() {
            return Err(DailySolveError::EmptyUsername);
        }
        Ok(())
    }

    /// The solve that `request` hands in on the day `date`.
    pub fn from_request(request: DailySolveRequestDto, date: i32) -> (solve: DailySolve)
        ensures
            solve.username == request.username,
            solve.date == date,
            solve.time == request.time,
    {
        DailySolve { username: request.username, date, time: request.time }
    }
}

impl From<DailySolveRow> for DailySolve {
    fn from(row: DailySolveRow) -> (solve: DailySolve) {
        DailySolve { username: row.username, date: row.date, time: row.time }
    }
}

impl FromSpecImpl<DailySolveRow> for DailySolve {
    open spec fn obeys_from_spec() -> bool {
        true
    }

    open spec fn from_spec(row: DailySolveRow) -> DailySolve {
        DailySolve { username: row.username, date: row.date, time: row.time }
    }
}

impl From<DailySolve> for DailySolveDto {
    fn from(solve: DailySolve) -> (dto: DailySolveDto) {
        DailySolveDto { username: solve.username, time: solve.time }
    }
}

impl FromSpecImpl<DailySolve> for DailySolveDto {
    open spec fn obeys_from_spec() -> bool {
        true
    }

    open spec fn from_spec(solve: DailySolve) -> DailySolveDto {
        DailySolveDto { username: solve.username, time: solve.time }
    }
}

impl DailySolveListDto {
    /// The leaderboard that shows `solves`, in their order.
    pub open spec fn of(solves: Seq<DailySolve>) -> Seq<DailySolveDto> {
        solves.map_values(
            |solve: DailySolve| DailySolveDto { username: solve.username, time: solve.time },
        )
    }

    /// The leaderboard that shows `solves`, in their order.
    pub fn from_solves(solves: &Vec<DailySolve>) -> (list: DailySolveListDto)
        ensures
            list.solves@ == DailySolveListDto::of(solves@),
    {
        let mut shown: Vec<DailySolveDto> = Vec::new();
        let mut i: usize = 0;
        while i < solves.len()
            invariant
                i <= solves@.len(),
                shown@ == DailySolveListDto::of(solves@).take(i as int),
            decreases solves@.len() - i,
        {
            shown.push(DailySolveDto { username: solves[i].username.clone(), time: solves[i].time });
            i = i + 1;
            assert(shown@ =~= DailySolveListDto::of(solves@).take(i as int));
        }
        assert(shown@ =~= DailySolveListDto::of(solves@));
        DailySolveListDto { solves: shown }
    }
}

} // verus!
