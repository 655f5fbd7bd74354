//! What a level's bricks are read from: the `brick_r{row}_c{col}` names that drive
//! scoring and food, and the `EntityTag` tokens (`armored{N}`, `drop_*`) that drive
//! behaviour.

use vstd::prelude::*;
use vstd::string::*;

use crate::foods::{
    file_name, food_for_row, food_for_row_spec, food_of_file, Food, BRICK_ROWS, BRICK_VALUE_STEP,
};
use crate::spawning::{brick_name_spec, brick_prefix_chars, brick_value, brick_value_spec};
use crate::text::{
    all_digits, chars_of, digits_of, digits_value, first_index_of, is_digit,
    lemma_digits_of, lemma_first_index_of_bounds, lemma_first_index_of_unique, parse_digits,
    span_is,
};
use crate::types::PickupKind;

verus! {

/// The most hits an armored brick may take.
pub const MAX_ARMOR_HITS: u32 = 9;

/// What a brick's tag makes of it: the hits it takes and the candy it drops.
#[derive(Debug, Clone, Copy, PartialEq, Eq, Structural)]
pub struct BrickSpec {
    pub hits: u32,
    pub drop: Option<PickupKind>,
}

/// A plain brick: one hit, no candy.
pub open spec fn plain_brick() -> BrickSpec {
    BrickSpec { hits: 1, drop: None }
}

impl Default for BrickSpec {
    fn default() -> (s: Self)
        ensures
            s == plain_brick(),
    {
        BrickSpec { hits: 1, drop: None }
    }
}

// --- names ---

/// The row a brick's name `brick_r{row}...` carries: the digits after `brick_r`, up to
/// the next `_` or the end.
pub open spec fn brick_row_spec(name: Seq<char>) -> Option<nat> {
    if name.len() >= 7 && name.take(7) == brick_prefix_chars() {
        let rest = name.skip(7);
        let digits = rest.take(first_index_of(rest, '_') as int);
        if digits.len() > 0 && all_digits(digits) && digits_value(digits) <= usize::MAX {
            Some(digits_value(digits))
        } else {
            None
        }
    } else {
        None
    }
}

/// The row a brick's name carries, or `None` for a name that is not a brick's.
pub fn brick_row_from_name(name: &str) -> (r: Option<usize>)
    ensures
        match r {
            Some(row) => brick_row_spec(name@) == Some(row as nat),
            None => brick_row_spec(name@) is None,
        },
{
    proof {
        reveal_strlit("brick_r");
        assert("brick_r"@ =~= brick_prefix_chars());
    }
    let cs = chars_of(name);
    let n = cs.len();
    if n < 7 || !span_is(&cs, 0, 7, "brick_r") {
        return None;
    }
    let mut end: usize = 7;
    while end < n && cs[end] != '_'
        invariant
            7 <= end <= n == cs@.len(),
            forall|j: int| 7 <= j < end ==> cs@[j] != '_',
        decreases n - end,
    {
        end = end + 1;
    }
    let ghost rest = cs@.skip(7);
    proof {
        assert forall|j: int| 0 <= j < end - 7 implies rest[j] != '_' by {
            assert(rest[j] == cs@[j + 7]);
        }
        lemma_first_index_of_unique(rest, '_', end - 7);
        assert(rest.take(end - 7) =~= cs@.subrange(7, end as int));
        assert(name@.take(7) =~= cs@.subrange(0, 7));
    }
    match parse_digits(&cs, 7, end) {
        Some(v) => {
            if v <= usize::MAX as u64 {
                Some(v as usize)
            } else {
                None
            }
        },
        None => None,
    }
}

/// The score a brick's name pays: its row's value, or the least value for a name with
/// no row or a row past the wall's base.
pub open spec fn brick_value_from_name_spec(name: Seq<char>) -> int {
    match brick_row_spec(name) {
        Some(row) => if row < BRICK_ROWS {
            brick_value_spec(row as int)
        } else {
            BRICK_VALUE_STEP as int
        },
        None => BRICK_VALUE_STEP as int,
    }
}

/// The score a brick pays, read from its name. Renamed or out-of-range bricks score
/// the minimum instead of failing.
pub fn brick_value_from_name(name: &str) -> (v: u32)
    ensures
        v == brick_value_from_name_spec(name@),
{
    match brick_row_from_name(name) {
        Some(row) => if row < BRICK_ROWS {
            brick_value(row)
        } else {
            BRICK_VALUE_STEP
        },
        None => BRICK_VALUE_STEP,
    }
}

/// The food a scene brick is made of: the food its sheet names, or else its row's.
pub open spec fn brick_food_spec(name: Seq<char>, sheet: Option<Seq<char>>) -> Food {
    match sheet {
        Some(path) if food_of_file(file_name(path)) is Some => food_of_file(file_name(path))->0,
        _ => match brick_row_spec(name) {
            Some(row) => food_for_row_spec(row as int),
            None => food_for_row_spec(BRICK_ROWS - 1),
        },
    }
}

/// The food a scene brick is made of: what its sheet says, falling back to its row's
/// food where the sheet names no food (and to the base's where the name has no row).
pub fn brick_food(name: &str, sheet: Option<&str>) -> (food: Food)
    ensures
        food == brick_food_spec(name@, match sheet { Some(p) => Some(p@), None => None }),
{
    if let Some(path) = sheet {
        if let Some(food) = Food::from_sheet_path(path) {
            return food;
        }
    }
    match brick_row_from_name(name) {
        Some(row) => food_for_row(row),
        None => food_for_row(BRICK_ROWS - 1),
    }
}

/// The name the generated wall gives a brick carries its row back, so the brick pays
/// its row's value and is its row's food.
pub proof fn lemma_brick_name_carries_its_row(row: nat, col: nat)
    requires
        row <= usize::MAX,
    ensures
        brick_row_spec(brick_name_spec(row, col)) == Some(row),
        row < BRICK_ROWS ==> brick_value_from_name_spec(brick_name_spec(row, col)) == brick_value_spec(row as int),
        brick_food_spec(brick_name_spec(row, col), None) == food_for_row_spec(row as int),
{
    let name = brick_name_spec(row, col);
    let digits = digits_of(row);
    lemma_digits_of(row);
    lemma_digits_of(col);
    assert(name.take(7) =~= brick_prefix_chars());
    let rest = name.skip(7);
    assert(rest =~= digits + seq!['_', 'c'] + digits_of(col));
    assert forall|j: int| 0 <= j < digits.len() implies rest[j] != '_' by {
        assert(rest[j] == digits[j]);
        assert(is_digit(digits[j]));
    }
    lemma_first_index_of_unique(rest, '_', digits.len() as int);
    assert(rest.take(digits.len() as int) =~= digits);
}

// --- tags ---

/// Unicode's white space, the characters a tag token is trimmed of.
pub open spec fn is_white_spec(c: char) -> bool {
    ||| '\u{9}' <= c <= '\u{d}'
    ||| c == ' '
    ||| c == '\u{85}'
    ||| c == '\u{a0}'
    ||| c == '\u{1680}'
    ||| '\u{2000}' <= c <= '\u{200a}'
    ||| c == '\u{2028}'
    ||| c == '\u{2029}'
    ||| c == '\u{202f}'
    ||| c == '\u{205f}'
    ||| c == '\u{3000}'
}

fn is_white(c: char) -> (r: bool)
    ensures
        r == is_white_spec(c),
{
    ('\u{9}' <= c && c <= '\u{d}') || c == ' ' || c == '\u{85}' || c == '\u{a0}' || c == '\u{1680}'
        || ('\u{2000}' <= c && c <= '\u{200a}') || c == '\u{2028}' || c == '\u{2029}'
        || c == '\u{202f}' || c == '\u{205f}' || c == '\u{3000}'
}

pub open spec fn trim_start(s: Seq<char>) -> Seq<char>
    decreases s.len(),
{
    if s.len() > 0 && is_white_spec(s[0]) {
        trim_start(s.drop_first())
    } else {
        s
    }
}

pub open spec fn trim_end(s: Seq<char>) -> Seq<char>
    decreases s.len(),
{
    if s.len() > 0 && is_white_spec(s.last()) {
        trim_end(s.drop_last())
    } else {
        s
    }
}

/// A token without the white space around it.
pub open spec fn trim(s: Seq<char>) -> Seq<char> {
    trim_end(trim_start(s))
}

proof fn lemma_trim_start_at(s: Seq<char>, k: int)
    requires
        0 <= k <= s.len(),
        forall|j: int| 0 <= j < k ==> is_white_spec(s[j]),
        k == s.len() || !is_white_spec(s[k]),
    ensures
        trim_start(s) == s.skip(k),
    decreases k,
{
    if k == 0 {
        assert(s.skip(0) =~= s);
    } else {
        assert forall|j: int| 0 <= j < k - 1 implies is_white_spec(s.drop_first()[j]) by {
            assert(s.drop_first()[j] == s[j + 1]);
        }
        if k < s.len() {
            assert(s.drop_first()[k - 1] == s[k]);
        }
        lemma_trim_start_at(s.drop_first(), k - 1);
        assert(s.drop_first().skip(k - 1) =~= s.skip(k));
    }
}

proof fn lemma_trim_end_at(s: Seq<char>, k: int)
    requires
        0 <= k <= s.len(),
        forall|j: int| k <= j < s.len() ==> is_white_spec(s[j]),
        k == 0 || !is_white_spec(s[k - 1]),
    ensures
        trim_end(s) == s.take(k),
    decreases s.len() - k,
{
    if k == s.len() {
        assert(s.take(k) =~= s);
    } else {
        assert forall|j: int| k <= j < s.drop_last().len() implies is_white_spec(s.drop_last()[j]) by {
            assert(s.drop_last()[j] == s[j]);
        }
        lemma_trim_end_at(s.drop_last(), k);
        assert(s.drop_last().take(k) =~= s.take(k));
    }
}

/// The hits an `armored{N}` token gives: `N` in `2..=MAX_ARMOR_HITS`, written in digits.
/// One-hit armor is not armor, and anything past the cap is rejected.
pub open spec fn armor_hits(token: Seq<char>) -> Option<u32> {
    let digits = token.skip(7);
    if token.len() > 7 && token.take(7) == "armored"@ && all_digits(digits) && 2 <= digits_value(digits)
        <= MAX_ARMOR_HITS {
        Some(digits_value(digits) as u32)
    } else {
        None
    }
}

/// One token applied to the spec read so far; a token that means nothing is skipped.
pub open spec fn apply_token(spec: BrickSpec, token: Seq<char>) -> BrickSpec {
    if token == "drop_multiball"@ {
        BrickSpec { drop: Some(PickupKind::Multiball), ..spec }
    } else if token == "drop_wrecking"@ {
        BrickSpec { drop: Some(PickupKind::Wrecking), ..spec }
    } else if token == "drop_insiculous"@ {
        BrickSpec { drop: Some(PickupKind::Insiculous), ..spec }
    } else if armor_hits(token) is Some {
        BrickSpec { hits: armor_hits(token)->0, ..spec }
    } else {
        spec
    }
}

/// A tag's `+`-separated tokens, each trimmed, applied left to right.
pub open spec fn apply_tags(spec: BrickSpec, s: Seq<char>) -> BrickSpec
    decreases s.len(),
{
    let i = first_index_of(s, '+');
    let next = apply_token(spec, trim(s.take(i as int)));
    if i < s.len() {
        proof {
            lemma_first_index_of_bounds(s, '+');
        }
        apply_tags(next, s.skip(i + 1 as int))
    } else {
        next
    }
}

/// What a whole tag makes of a brick.
pub open spec fn parse_brick_tag_spec(tag: Seq<char>) -> BrickSpec {
    apply_tags(plain_brick(), tag)
}

/// Apply the token `cs[from..to]`, trimmed, to `spec`.
fn apply_token_span(spec: BrickSpec, cs: &Vec<char>, from: usize, to: usize) -> (r: BrickSpec)
    requires
        from <= to <= cs@.len(),
    ensures
        r == apply_token(spec, trim(cs@.subrange(from as int, to as int))),
{
    let mut a = from;
    while a < to && is_white(cs[a])
        invariant
            from <= a <= to <= cs@.len(),
            forall|j: int| from <= j < a ==> is_white_spec(cs@[j]),
        decreases to - a,
    {
        a = a + 1;
    }
    let mut b = to;
    while b > a && is_white(cs[b - 1])
        invariant
            from <= a <= b <= to <= cs@.len(),
            forall|j: int| b <= j < to ==> is_white_spec(cs@[j]),
        decreases b - a,
    {
        b = b - 1;
    }
    proof {
        let span = cs@.subrange(from as int, to as int);
        lemma_trim_start_at(span, a - from);
        assert(span.skip(a - from) =~= cs@.subrange(a as int, to as int));
        lemma_trim_end_at(cs@.subrange(a as int, to as int), b - a);
        assert(cs@.subrange(a as int, to as int).take(b - a) =~= cs@.subrange(a as int, b as int));
        reveal_strlit("armored");
    }
    let ghost token = cs@.subrange(a as int, b as int);
    if span_is(cs, a, b, "drop_multiball") {
        BrickSpec { drop: Some(PickupKind::Multiball), ..spec }
    } else if span_is(cs, a, b, "drop_wrecking") {
        BrickSpec { drop: Some(PickupKind::Wrecking), ..spec }
    } else if span_is(cs, a, b, "drop_insiculous") {
        BrickSpec { drop: Some(PickupKind::Insiculous), ..spec }
    } else if b - a > 7 && span_is(cs, a, a + 7, "armored") {
        proof {
            assert(token.take(7) =~= cs@.subrange(a as int, a + 7));
            assert(token.skip(7) =~= cs@.subrange(a + 7, b as int));
        }
        match parse_digits(cs, a + 7, b) {
            Some(n) => if 2 <= n && n <= MAX_ARMOR_HITS as u64 {
                BrickSpec { hits: n as u32, ..spec }
            } else {
                spec
            },
            None => spec,
        }
    } else {
        proof {
            if token.len() > 7 {
                assert(token.take(7) =~= cs@.subrange(a as int, a + 7));
            }
        }
        spec
    }
}

/// Parse a brick's `EntityTag`: `+`-separated tokens, white space around each
/// tolerated, in any order. `armored{N}` sets the hits, `drop_multiball`,
/// `drop_wrecking` and `drop_insiculous` the candy; a later token of the same kind
/// wins, and unknown or malformed tokens are skipped, never fatal.
pub fn parse_brick_tag(tag: &str) -> (spec: BrickSpec)
    ensures
        spec == parse_brick_tag_spec(tag@),
{
    let cs = chars_of(tag);
    let n = cs.len();
    let mut spec = BrickSpec { hits: 1, drop: None };
    let mut start: usize = 0;
    let mut i: usize = 0;
    proof {
        assert(cs@.skip(0) =~= cs@);
    }
    while i < n
        invariant
            n == cs@.len(),
            cs@ == tag@,
            start <= i <= n,
            forall|j: int| start <= j < i ==> cs@[j] != '+',
            parse_brick_tag_spec(tag@) == apply_tags(spec, cs@.skip(start as int)),
        decreases n - i,
    {
        if cs[i] == '+' {
            proof {
                let rest = cs@.skip(start as int);
                assert forall|j: int| 0 <= j < i - start implies rest[j] != '+' by {
                    assert(rest[j] == cs@[start + j]);
                }
                lemma_first_index_of_unique(rest, '+', i - start);
                assert(rest.take(i - start) =~= cs@.subrange(start as int, i as int));
                assert(rest.skip(i - start + 1) =~= cs@.skip(i + 1));
            }
            spec = apply_token_span(spec, &cs, start, i);
            start = i + 1;
        }
        i = i + 1;
    }
    proof {
        let rest = cs@.skip(start as int);
        assert forall|j: int| 0 <= j < rest.len() implies rest[j] != '+' by {
            assert(rest[j] == cs@[start + j]);
        }
        lemma_first_index_of_unique(rest, '+', rest.len() as int);
        assert(rest.take(rest.len() as int) =~= cs@.subrange(start as int, n as int));
    }
    apply_token_span(spec, &cs, start, n)
}

/// Tokens apply left to right: a tag joined from two with `+` is the second applied
/// over the first — so of two tokens of the same kind, the later wins.
pub proof fn lemma_tags_apply_left_to_right(spec: BrickSpec, first: Seq<char>, second: Seq<char>)
    requires
        !first.contains('+'),
    ensures
        apply_tags(spec, first + seq!['+'] + second) == apply_tags(apply_token(spec, trim(first)), second),
{
    let s = first + seq!['+'] + second;
    assert forall|j: int| 0 <= j < first.len() implies s[j] != '+' by {
        assert(s[j] == first[j]);
    }
    lemma_first_index_of_unique(s, '+', first.len() as int);
    assert(s.take(first.len() as int) =~= first);
    assert(s.skip(first.len() + 1 as int) =~= second);
}

/// An armor token and a candy token set different things, so their order does not
/// matter.
pub proof fn lemma_armor_and_drop_commute(spec: BrickSpec, armor: Seq<char>, drop: Seq<char>)
    requires
        armor_hits(armor) is Some,
        drop == "drop_multiball"@ || drop == "drop_wrecking"@ || drop == "drop_insiculous"@,
    ensures
        apply_token(apply_token(spec, armor), drop) == apply_token(apply_token(spec, drop), armor),
{
    reveal_strlit("armored");
    reveal_strlit("drop_multiball");
    reveal_strlit("drop_wrecking");
    reveal_strlit("drop_insiculous");
    assert(armor.take(7) == "armored"@);
    assert(armor != "drop_multiball"@ && armor != "drop_wrecking"@ && armor != "drop_insiculous"@) by {
        assert(armor.take(7)[0] == armor[0]);
        assert(armor[0] == 'a');
        assert("drop_multiball"@[0] == 'd');
    }
    assert(armor_hits(drop) is None) by {
        if drop.len() > 7 && drop.take(7) == "armored"@ {
            assert(drop.take(7)[0] == drop[0]);
        }
    }
}

} // verus!
