//! Placement of a score among the historical competition results.

use vstd::prelude::*;

verus! {

/// Number of participants of the competition.
pub const GT_RESULTS_LEN: usize = 233;

/// Points scored by each participant of the competition, best first.
/// The last participant scored nothing, so every score reaches some entry.
pub const GT_RESULTS: [usize; 233] = [
    276, 274, 271, 270, 267, 264, 262, 260, 259, 256, 255, 254, 252, 250, 248, 247, 246, 245, 244,
    243, 242, 241, 240, 239, 238, 236, 235, 234, 233, 232, 231, 230, 228, 227, 226, 225, 224, 223,
    222, 221, 220, 219, 218, 217, 216, 215, 214, 213, 212, 211, 210, 209, 208, 207, 206, 205, 204,
    203, 202, 201, 200, 199, 198, 197, 196, 195, 194, 193, 192, 191, 190, 189, 188, 187, 186, 185,
    184, 183, 182, 181, 180, 179, 178, 177, 176, 175, 174, 173, 172, 171, 170, 169, 168, 167, 166,
    165, 164, 163, 162, 161, 160, 159, 157, 156, 155, 154, 153, 152, 151, 150, 149, 148, 147, 146,
    145, 144, 143, 142, 141, 140, 139, 138, 137, 136, 135, 134, 133, 132, 131, 130, 129, 128, 127,
    126, 125, 124, 123, 122, 121, 120, 119, 118, 117, 115, 114, 113, 112, 111, 110, 109, 108, 107,
    106, 105, 104, 103, 102, 100, 99, 98, 96, 95, 94, 93, 92, 91, 90, 89, 88, 87, 86, 85, 84, 82,
    81, 80, 79, 78, 77, 76, 75, 74, 73, 72, 71, 70, 69, 68, 67, 66, 64, 63, 62, 61, 60, 59, 58, 57,
    56, 55, 53, 52, 51, 50, 49, 47, 46, 45, 44, 43, 42, 41, 40, 39, 38, 37, 36, 35, 34, 33, 32, 30,
    29, 28, 27, 26, 25, 24, 23, 22, 21, 20, 0,
];

/// The historical results as a sequence, best first.
pub open spec fn results() -> Seq<usize> {
    GT_RESULTS@
}

/// `place` is the 1-based position of the first historical result that
/// `correct` reaches: every better-placed participant scored strictly more.
pub open spec fn is_user_place(correct: int, place: int) -> bool {
    &&& 1 <= place <= results().len()
    &&& results()[place - 1] <= correct
    &&& forall|j: int| 0 <= j < place - 1 ==> results()[j] > correct
}

/// The place that a score of `correct` points earns.
pub open spec fn user_place(correct: int) -> int {
    choose|place: int| is_user_place(correct, place)
}

/// A score earns at most one place.
pub proof fn lemma_user_place_unique(correct: int, one: int, other: int)
    requires
        is_user_place(correct, one),
        is_user_place(correct, other),
    ensures
        one == other,
{
    if one < other {
        assert(results()[one - 1] > correct);
    } else if other < one {
        assert(results()[other - 1] > correct);
    }
}

/// Prize category that a place falls into.
#[derive(Clone, Copy, Debug, PartialEq, Eq, Structural)]
pub enum PlaceBucket {
    Winner,
    ConsolationPrize,
    NamePrinted,
    NameWebsite,
    Loser,
}

/// The prize category of a 1-based place.
pub open spec fn bucket_of(place: int) -> PlaceBucket {
    if place == 1 {
        PlaceBucket::Winner
    } else if 2 <= place <= 7 {
        PlaceBucket::ConsolationPrize
    } else if 8 <= place <= 61 {
        PlaceBucket::NamePrinted
    } else if 62 <= place <= 232 {
        PlaceBucket::NameWebsite
    } else {
        PlaceBucket::Loser
    }
}

impl PlaceBucket {
    /// The name of the category as the pages spell it.
    pub open spec fn label(self) -> Seq<char> {
        match self {
            PlaceBucket::Winner => "winner"@,
            PlaceBucket::ConsolationPrize => "consolation-prize"@,
            PlaceBucket::NamePrinted => "name-printed"@,
            PlaceBucket::NameWebsite => "name-website"@,
            PlaceBucket::Loser => "loser"@,
        }
    }

    /// Maps a place to its prize category.
    pub fn from_place(place: usize) -> (bucket: PlaceBucket)
        ensures
            bucket == bucket_of(place as int),
    {
        if place == 1 {
            PlaceBucket::Winner
        } else if 2 <= place && place <= 7 {
            PlaceBucket::ConsolationPrize
        } else if 8 <= place && place <= 61 {
            PlaceBucket::NamePrinted
        } else if 62 <= place && place <= 232 {
            PlaceBucket::NameWebsite
        } else {
            PlaceBucket::Loser
        }
    }

    /// Renders the category name.
    pub fn to_string(&self) -> (text: String)
        ensures
            text@ == self.label(),
    {
        let name: &str = match self {
            PlaceBucket::Winner => "winner",
            PlaceBucket::ConsolationPrize => "consolation-prize",
            PlaceBucket::NamePrinted => "name-printed",
            PlaceBucket::NameWebsite => "name-website",
            PlaceBucket::Loser => "loser",
        };
        String::from_str(name)
    }
}

/// Tells which place a participant with `correct_answers` points would have
/// taken in the competition.
pub fn get_user_place(correct_answers: usize) -> (place: usize)
    ensures
        is_user_place(correct_answers as int, place as int),
        place == user_place(correct_answers as int),
{
    let mut i: usize = 0;
    while i < GT_RESULTS_LEN - 1 && GT_RESULTS[i] > correct_answers
        invariant
            i <= GT_RESULTS_LEN - 1,
            forall|j: int| 0 <= j < i ==> results()[j] > correct_answers,
        decreases GT_RESULTS_LEN - i,
    {
        i = i + 1;
    }
    let place: usize = i + 1;
    proof {
        lemma_user_place_unique(
            correct_answers as int,
            place as int,
            user_place(correct_answers as int),
        );
    }
    place
}


} // verus!
