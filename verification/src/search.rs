//! The nearest cached day before or after a given day: a day-by-day scan
//! that asks the caller whether each candidate's image is on disk.

use vstd::prelude::*;
use vstd::string::*;
use crate::date::{
    day_at,
    day_key_date,
    day_number,
    parse_day_key,
    Date,
    MAX_DAY_NUMBER,
};
use crate::paths::{build_image_path, image_path};

verus! {

/// The number that bounds a search by default: the days 1 to 364 away are tried.
pub const DEFAULT_SEARCH_LIMIT: i64 = 365;

/// The way a search walks from its starting day.
#[derive(Clone, Copy, Debug, PartialEq, Eq, Structural)]
pub enum Direction {
    /// Towards earlier days.
    Backward,
    /// Towards later days.
    Forward,
}

/// A search that waits to hear whether its current candidate is cached.
#[derive(Debug)]
pub struct Search {
    root: String,
    region: String,
    start: Date,
    direction: Direction,
    index: i64,
    limit: i64,
}

/// What the caller is to do next.
#[derive(Debug)]
pub enum Lookup {
    /// Tell `search` whether a file is present at `path`.
    Probe { path: String, search: Search },
    /// The search is over: the day key of the nearest cached day, if one was found.
    Done(Option<String>),
}

/// A search, as contracts see it.
pub struct SearchState {
    /// The working directory.
    pub root: Seq<char>,
    /// The region code.
    pub region: Seq<char>,
    /// The day that the search walks away from.
    pub start: Date,
    /// Which way it walks.
    pub direction: Direction,
    /// How many days away the current candidate is.
    pub index: int,
    /// The first distance that is not tried.
    pub limit: int,
}

/// A `Lookup`, as contracts see it.
pub enum Finding {
    Probe { path: Seq<char>, search: SearchState },
    Done(Option<Seq<char>>),
}

impl View for Search {
    type V = SearchState;

    closed spec fn view(&self) -> SearchState {
        SearchState {
            root: self.root@,
            region: self.region@,
            start: self.start,
            direction: self.direction,
            index: self.index as int,
            limit: self.limit as int,
        }
    }
}

impl View for Lookup {
    type V = Finding;

    open spec fn view(&self) -> Finding {
        match *self {
            Lookup::Probe { path, search } => Finding::Probe { path: path@, search: search@ },
            Lookup::Done(found) => Finding::Done(
                match found {
                    Some(key) => Some(key@),
                    None => None,
                },
            ),
        }
    }
}

/// The position of the day `index` days from `start` in `direction`.
pub open spec fn candidate_number(start: Date, direction: Direction, index: int) -> int {
    match direction {
        Direction::Backward => day_number(start) - index,
        Direction::Forward => day_number(start) + index,
    }
}

impl SearchState {
    /// A search in progress: its current candidate is a day of the
    /// calendar at a distance within the limit.
    pub open spec fn wf(self) -> bool {
        &&& self.start.wf()
        &&& 1 <= self.index < self.limit <= i64::MAX
        &&& 0 <= candidate_number(self.start, self.direction, self.index) <= MAX_DAY_NUMBER
    }

    /// The day key of the candidate at distance `index`.
    pub open spec fn candidate_key(self, index: int) -> Seq<char> {
        day_at(candidate_number(self.start, self.direction, index)).day_key()
    }

    /// The image path of the candidate at distance `index`.
    pub open spec fn candidate_path(self, index: int) -> Seq<char> {
        image_path(self.root, self.candidate_key(index), self.region)
    }

    /// Whether there is a candidate at distance `index`: the distance is
    /// within the limit and the day is on the calendar.
    pub open spec fn in_reach(self, index: int) -> bool {
        &&& 1 <= index < self.limit
        &&& 0 <= candidate_number(self.start, self.direction, index) <= MAX_DAY_NUMBER
    }

    /// Turns to the candidate at distance `index`, or gives up where
    /// there is none.
    pub open spec fn probe_at(self, index: int) -> Finding {
        if self.in_reach(index) {
            Finding::Probe {
                path: self.candidate_path(index),
                search: SearchState { index, ..self },
            }
        } else {
            Finding::Done(None)
        }
    }

    /// What follows when the current candidate is cached, or is not.
    pub open spec fn next(self, present: bool) -> Finding {
        if present {
            Finding::Done(Some(self.candidate_key(self.index)))
        } else {
            self.probe_at(self.index + 1)
        }
    }
}

/// The beginning of a search from `start_day_key`: the first probe, or
/// the end at once where the key names no day or no candidate is in reach.
pub open spec fn begin_search(
    root: Seq<char>,
    start_day_key: Seq<char>,
    region: Seq<char>,
    direction: Direction,
    search_limit: int,
) -> Finding {
    match day_key_date(start_day_key) {
        None => Finding::Done(None),
        Some(start) => (SearchState {
            root,
            region,
            start,
            direction,
            index: 0,
            limit: search_limit,
        }).probe_at(1),
    }
}

impl Search {
    /// Turns to the candidate at distance `index`.
    fn probe_at(self, index: i64) -> (r: Lookup)
        requires
            self.start.wf(),
            1 <= index,
        ensures
            r@ == self@.probe_at(index as int),
            r matches Lookup::Probe { search, .. } ==> search@.wf(),
    {
        if index >= self.limit {
            return Lookup::Done(None);
        }
        let delta: i64 = match self.direction {
            Direction::Backward => -index,
            Direction::Forward => index,
        };
        match self.start.offset(delta) {
            None => Lookup::Done(None),
            Some(day) => {
                let key = day.to_day_key();
                let path = build_image_path(self.root.as_str(), key.as_str(), self.region.as_str());
                Lookup::Probe { path, search: Search { index, ..self } }
            },
        }
    }

    /// Takes in whether the current candidate's image is on disk: the
    /// candidate is the answer if it is, else the search turns to the
    /// next day, or ends without an answer after the last one.
    pub fn advance(self, present: bool) -> (r: Lookup)
        requires
            self@.wf(),
        ensures
            r@ == self@.next(present),
            r matches Lookup::Probe { search, .. } ==> search@.wf(),
    {
        if present {
            let delta: i64 = match self.direction {
                Direction::Backward => -self.index,
                Direction::Forward => self.index,
            };
            match self.start.offset(delta) {
                Some(day) => Lookup::Done(Some(day.to_day_key())),
                None => Lookup::Done(None),
            }
        } else {
            let index: i64 = self.index + 1;
            self.probe_at(index)
        }
    }
}

/// Begins the search for the nearest cached day from `start_day_key` in
/// `direction`: the days 1, 2, and so on away are tried in this order, up
/// to and without `search_limit`.
pub fn nearest_available(
    root: &str,
    start_day_key: &str,
    region: &str,
    direction: Direction,
    search_limit: i64,
) -> (r: Lookup)
    ensures
        r@ == begin_search(root@, start_day_key@, region@, direction, search_limit as int),
        r matches Lookup::Probe { search, .. } ==> search@.wf(),
{
    match parse_day_key(start_day_key) {
        None => Lookup::Done(None),
        Some(start) => {
            let search = Search {
                root: String::from_str(root),
                region: String::from_str(region),
                start,
                direction,
                index: 0,
                limit: search_limit,
            };
            search.probe_at(1)
        },
    }
}

/// The answer of a search that is carried on against the files `present`.
pub open spec fn outcome(finding: Finding, present: Set<Seq<char>>) -> Option<Seq<char>>
    decreases
        (match finding {
            Finding::Probe { search, .. } => search.limit - search.index,
            Finding::Done(_) => 0,
        }),
{
    match finding {
        Finding::Done(found) => found,
        Finding::Probe { path, search } => if search.index < search.limit {
            outcome(search.next(present.contains(path)), present)
        } else {
            None
        },
    }
}

/// A search answers with the nearest cached day: the candidate found is
/// cached and in reach, and no candidate nearer to the start is cached.
/// Where it finds none, no candidate in reach is cached. A start that is
/// no day key finds nothing.
pub proof fn lemma_search_finds_nearest(
    root: Seq<char>,
    start_day_key: Seq<char>,
    region: Seq<char>,
    direction: Direction,
    search_limit: int,
    present: Set<Seq<char>>,
)
    ensures
        ({
            let found = outcome(
                begin_search(root, start_day_key, region, direction, search_limit),
                present,
            );
            match day_key_date(start_day_key) {
                None => found is None,
                Some(start) => {
                    let search = SearchState {
                        root,
                        region,
                        start,
                        direction,
                        index: 0,
                        limit: search_limit,
                    };
                    match found {
                        Some(key) => exists|i: int|
                            {
                                &&& search.in_reach(i)
                                &&& key == search.candidate_key(i)
                                &&& present.contains(#[trigger] search.candidate_path(i))
                                &&& forall|j: int|
                                    1 <= j < i ==> !present.contains(
                                        #[trigger] search.candidate_path(j),
                                    )
                            },
                        None => forall|i: int|
                            search.in_reach(i) ==> !present.contains(
                                #[trigger] search.candidate_path(i),
                            ),
                    }
                },
            }
        }),
{
    if let Some(start) = day_key_date(start_day_key) {
        let search = SearchState { root, region, start, direction, index: 0, limit: search_limit };
        lemma_outcome_from(search, 1, present);
    }
}

/// The answer of a search that has come to distance `index` without a hit.
#[verifier::rlimit(40)]
proof fn lemma_outcome_from(search: SearchState, index: int, present: Set<Seq<char>>)
    requires
        search.start.wf(),
        1 <= index,
    ensures
        match outcome(search.probe_at(index), present) {
            Some(key) => exists|i: int|
                {
                    &&& index <= i
                    &&& search.in_reach(i)
                    &&& key == search.candidate_key(i)
                    &&& present.contains(#[trigger] search.candidate_path(i))
                    &&& forall|j: int|
                        index <= j < i ==> !present.contains(#[trigger] search.candidate_path(j))
                },
            None => forall|i: int|
                index <= i && search.in_reach(i) ==> !present.contains(
                    #[trigger] search.candidate_path(i),
                ),
        },
    decreases search.limit - index,
{
    reveal_with_fuel(outcome, 3);
    if !search.in_reach(index) {
        // Past the limit or off the calendar, and so is every candidate farther out.
        assert(forall|i: int| index <= i ==> !search.in_reach(i));
    } else if !present.contains(search.candidate_path(index)) {
        let here = SearchState { index, ..search };
        assert(here.probe_at(index + 1) == search.probe_at(index + 1));
        lemma_outcome_from(search, index + 1, present);
        if let Some(key) = outcome(search.probe_at(index + 1), present) {
            let i = choose|i: int|
                {
                    &&& index + 1 <= i
                    &&& search.in_reach(i)
                    &&& key == search.candidate_key(i)
                    &&& present.contains(#[trigger] search.candidate_path(i))
                    &&& forall|j: int|
                        index + 1 <= j < i ==> !present.contains(
                            #[trigger] search.candidate_path(j),
                        )
                };
            assert(forall|j: int|
                index <= j < i ==> !present.contains(#[trigger] search.candidate_path(j)));
        }
    }
}

} // verus!
