//! The six foods of the wall, the sheets they wear, and the whole-number tuning of a
//! match.

use vstd::prelude::*;

use crate::text::{chars_of, last_index_of, lemma_last_index_of_unique};

verus! {

/// Rows and columns of the generated wall, one food per row.
pub const BRICK_COLS: usize = 10;
pub const BRICK_ROWS: usize = 6;
/// Points awarded per brick = (rows from the bottom of the grid) * this.
pub const BRICK_VALUE_STEP: u32 = 10;
/// Cap on simultaneous extra balls (multiball grants beyond it fizzle).
pub const MAX_EXTRA_BALLS: usize = 6;
pub const STARTING_LIVES: u32 = 3;
/// Bricks destroyed in one volley (without touching the paddle) to unlock the combo
/// achievement.
pub const COMBO_TARGET: u32 = 5;

/// The six food groups, one per row of the wall and tier of the pyramid.
#[derive(Debug, Clone, Copy, PartialEq, Eq, Structural)]
pub enum Food {
    Watermelon,
    Broccoli,
    Baguette,
    CheeseWheel,
    Steak,
    Donut,
}

/// The pyramid from its base up: the food at tier `i`.
pub open spec fn food_at_spec(i: int) -> Food {
    if i <= 0 {
        Food::Watermelon
    } else if i == 1 {
        Food::Broccoli
    } else if i == 2 {
        Food::Baguette
    } else if i == 3 {
        Food::CheeseWheel
    } else if i == 4 {
        Food::Steak
    } else {
        Food::Donut
    }
}

/// The sheet each food's bricks wear.
pub open spec fn food_path(food: Food) -> &'static str {
    match food {
        Food::Watermelon => "sprites/ai_pyramid_watermelon_64x32.png",
        Food::Broccoli => "sprites/ai_pyramid_broccoli_64x32.png",
        Food::Baguette => "sprites/ai_pyramid_baguette_64x32.png",
        Food::CheeseWheel => "sprites/ai_pyramid_cheese_wheel_64x32.png",
        Food::Steak => "sprites/ai_pyramid_steak_64x32.png",
        Food::Donut => "sprites/ai_pyramid_donut_64x32.png",
    }
}

impl Food {
    /// The food's tier from the base of the pyramid.
    pub open spec fn tier(self) -> int {
        match self {
            Food::Watermelon => 0,
            Food::Broccoli => 1,
            Food::Baguette => 2,
            Food::CheeseWheel => 3,
            Food::Steak => 4,
            Food::Donut => 5,
        }
    }

    /// The food's row in the pyramid table, counted from its base.
    pub fn index(self) -> (i: usize)
        ensures
            i == self.tier(),
            food_at_spec(i as int) == self,
    {
        match self {
            Food::Watermelon => 0,
            Food::Broccoli => 1,
            Food::Baguette => 2,
            Food::CheeseWheel => 3,
            Food::Steak => 4,
            Food::Donut => 5,
        }
    }

    /// The food at tier `index` of the pyramid, from its base up.
    pub fn at(index: usize) -> (food: Food)
        requires
            index < 6,
        ensures
            food == food_at_spec(index as int),
            food.tier() == index,
    {
        match index {
            0 => Food::Watermelon,
            1 => Food::Broccoli,
            2 => Food::Baguette,
            3 => Food::CheeseWheel,
            4 => Food::Steak,
            _ => Food::Donut,
        }
    }

    /// The path of the sheet this food's bricks wear.
    pub fn sheet_path(self) -> (p: &'static str)
        ensures
            p == food_path(self),
    {
        match self {
            Food::Watermelon => "sprites/ai_pyramid_watermelon_64x32.png",
            Food::Broccoli => "sprites/ai_pyramid_broccoli_64x32.png",
            Food::Baguette => "sprites/ai_pyramid_baguette_64x32.png",
            Food::CheeseWheel => "sprites/ai_pyramid_cheese_wheel_64x32.png",
            Food::Steak => "sprites/ai_pyramid_steak_64x32.png",
            Food::Donut => "sprites/ai_pyramid_donut_64x32.png",
        }
    }

    /// The food whose sheet `path` names, matched by file name so a scene may spell
    /// the directory either way.
    pub fn from_sheet_path(path: &str) -> (r: Option<Food>)
        ensures
            r == food_of_file(file_name(path@)),
    {
        let wanted = chars_of(path);
        let start = file_name_start(&wanted);
        let mut i: usize = 0;
        while i < 6
            invariant
                i <= 6,
                wanted@ == path@,
                start as int == last_index_of(path@, '/') + 1,
                food_of_file(file_name(path@)) == food_from(file_name(path@), i as int),
            decreases 6 - i,
        {
            let food = Food::at(i);
            let candidate = chars_of(food.sheet_path());
            let from = file_name_start(&candidate);
            proof {
                crate::text::lemma_last_index_of_bounds(path@, '/');
                crate::text::lemma_last_index_of_bounds(candidate@, '/');
            }
            let own = candidate.len() - from;
            if wanted.len() - start == own && span_matches(&wanted, start, &candidate, from) {
                return Some(food);
            }
            proof {
                assert(file_name(path@) == wanted@.skip(start as int));
                assert(file_name(food_path(food)@) == candidate@.skip(from as int));
                if wanted.len() - start != own {
                    assert(file_name(path@).len() != file_name(food_path(food)@).len());
                }
                assert(file_name(path@) != file_name(food_path(food_at_spec(i as int))@));
            }
            i = i + 1;
        }
        None
    }
}

/// Each food's sheet lies in `sprites/`, and its file name holds its food's name at
/// characters 11 and 12, after `ai_pyramid_`.
proof fn lemma_food_file_name(food: Food)
    ensures
        file_name(food_path(food)@) == food_path(food)@.skip(8),
        file_name(food_path(food)@)[11] == match food {
            Food::Watermelon => 'w',
            Food::Broccoli => 'b',
            Food::Baguette => 'b',
            Food::CheeseWheel => 'c',
            Food::Steak => 's',
            Food::Donut => 'd',
        },
        file_name(food_path(food)@)[12] == match food {
            Food::Watermelon => 'a',
            Food::Broccoli => 'r',
            Food::Baguette => 'a',
            Food::CheeseWheel => 'h',
            Food::Steak => 't',
            Food::Donut => 'o',
        },
{
    reveal_strlit("sprites/ai_pyramid_watermelon_64x32.png");
    reveal_strlit("sprites/ai_pyramid_broccoli_64x32.png");
    reveal_strlit("sprites/ai_pyramid_baguette_64x32.png");
    reveal_strlit("sprites/ai_pyramid_cheese_wheel_64x32.png");
    reveal_strlit("sprites/ai_pyramid_steak_64x32.png");
    reveal_strlit("sprites/ai_pyramid_donut_64x32.png");
    let p = food_path(food)@;
    assert forall|j: int| 7 < j < p.len() implies p[j] != '/' by {}
    lemma_last_index_of_unique(p, '/', 7);
}

/// A food's own sheet path names that food: the six sheets' file names are distinct.
pub proof fn lemma_sheet_path_names_its_food(food: Food)
    ensures
        food_of_file(file_name(food_path(food)@)) == Some(food),
{
    lemma_food_file_name(Food::Watermelon);
    lemma_food_file_name(Food::Broccoli);
    lemma_food_file_name(Food::Baguette);
    lemma_food_file_name(Food::CheeseWheel);
    lemma_food_file_name(Food::Steak);
    lemma_food_file_name(Food::Donut);
    reveal_with_fuel(food_from, 7);
}

/// The part of a path after its last `/`.
pub open spec fn file_name(path: Seq<char>) -> Seq<char> {
    path.skip(last_index_of(path, '/') + 1)
}

/// The first food, from tier `i` up, whose sheet's file is `file`.
pub open spec fn food_from(file: Seq<char>, i: int) -> Option<Food>
    decreases 6 - i,
{
    if i < 0 || i >= 6 {
        None
    } else if file_name(food_path(food_at_spec(i))@) == file {
        Some(food_at_spec(i))
    } else {
        food_from(file, i + 1)
    }
}

/// The food whose sheet's file is `file`, if any.
pub open spec fn food_of_file(file: Seq<char>) -> Option<Food> {
    food_from(file, 0)
}

/// Where the file name starts in a path's characters: one past its last `/`.
fn file_name_start(cs: &Vec<char>) -> (start: usize)
    ensures
        start as int == last_index_of(cs@, '/') + 1,
{
    let mut i: usize = cs.len();
    while i > 0 && cs[i - 1] != '/'
        invariant
            i <= cs@.len(),
            forall|j: int| i <= j < cs@.len() ==> cs@[j] != '/',
        decreases i,
    {
        i = i - 1;
    }
    proof {
        lemma_last_index_of_unique(cs@, '/', i - 1);
    }
    i
}

/// Whether `a[a_from..]` and `b[b_from..]` hold the same characters.
fn span_matches(a: &Vec<char>, a_from: usize, b: &Vec<char>, b_from: usize) -> (r: bool)
    requires
        a_from <= a@.len(),
        b_from <= b@.len(),
        a@.len() - a_from == b@.len() - b_from,
    ensures
        r == (a@.skip(a_from as int) == b@.skip(b_from as int)),
{
    let n = a.len() - a_from;
    let mut j: usize = 0;
    while j < n
        invariant
            a_from <= a@.len(),
            b_from <= b@.len(),
            n == a.len() - a_from,
            n == b.len() - b_from,
            j <= n,
            a@.subrange(a_from as int, a_from + j) == b@.subrange(b_from as int, b_from + j),
        decreases n - j,
    {
        if a[a_from + j] != b[b_from + j] {
            assert(a@.skip(a_from as int)[j as int] != b@.skip(b_from as int)[j as int]);
            return false;
        }
        assert(a@.subrange(a_from as int, a_from + j + 1) =~= a@.subrange(a_from as int, a_from + j).push(a@[a_from + j]));
        assert(b@.subrange(b_from as int, b_from + j + 1) =~= b@.subrange(b_from as int, b_from + j).push(b@[b_from + j]));
        j = j + 1;
    }
    assert(a@.skip(a_from as int) =~= a@.subrange(a_from as int, a_from + n));
    assert(b@.skip(b_from as int) =~= b@.subrange(b_from as int, b_from + n));
    true
}

/// The food a row of the wall is made of: the top row is the pyramid's peak, sweets,
/// and the bottom row its base, fruit. A row past the base is the base.
pub open spec fn food_for_row_spec(row: int) -> Food {
    if row >= BRICK_ROWS - 1 {
        food_at_spec(0)
    } else {
        food_at_spec(BRICK_ROWS - 1 - row)
    }
}

pub fn food_for_row(row: usize) -> (food: Food)
    ensures
        food == food_for_row_spec(row as int),
{
    let clamped = if row < BRICK_ROWS - 1 { row } else { BRICK_ROWS - 1 };
    let tiers_from_the_base = BRICK_ROWS - 1 - clamped;
    Food::at(tiers_from_the_base)
}

/// Each row of the wall is its own tier: the rows from the top down climb the pyramid
/// down from its peak, and every tier has exactly one row.
pub proof fn lemma_each_row_is_its_tier(row: int)
    requires
        0 <= row < BRICK_ROWS,
    ensures
        food_for_row_spec(row).tier() == BRICK_ROWS - 1 - row,
        food_for_row_spec(0) == Food::Donut,
        food_for_row_spec(BRICK_ROWS - 1) == Food::Watermelon,
{
}

} // verus!
