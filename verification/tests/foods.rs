use food_pyramid::foods::{food_for_row, Food, BRICK_ROWS};

#[test]
fn a_sheet_path_names_its_food() {
    for index in 0..6 {
        let food = Food::at(index);
        assert_eq!(Food::from_sheet_path(food.sheet_path()), Some(food));
        assert_eq!(food.index(), index);
    }
    assert_eq!(Food::from_sheet_path("elsewhere/ai_pyramid_donut_64x32.png"), Some(Food::Donut));
    assert_eq!(Food::from_sheet_path("sprites/ai_deion_16.png"), None);
}

#[test]
fn a_sheet_path_is_matched_by_its_file_name_alone() {
    assert_eq!(Food::from_sheet_path("ai_pyramid_steak_64x32.png"), Some(Food::Steak));
    assert_eq!(Food::from_sheet_path("a/b/c/ai_pyramid_broccoli_64x32.png"), Some(Food::Broccoli));
    assert_eq!(Food::from_sheet_path("sprites/ai_pyramid_broccoli_64x32.png/"), None);
    assert_eq!(Food::from_sheet_path(""), None);
    assert_eq!(Food::Baguette.sheet_path(), "sprites/ai_pyramid_baguette_64x32.png");
}

#[test]
fn the_wall_climbs_the_pyramid_from_its_base() {
    let expected = [Food::Donut, Food::Steak, Food::CheeseWheel, Food::Baguette, Food::Broccoli, Food::Watermelon];
    for row in 0..BRICK_ROWS {
        assert_eq!(food_for_row(row), expected[row]);
    }
    assert_eq!(food_for_row(BRICK_ROWS), Food::Watermelon, "a row past the base is the base");
    assert_eq!(food_for_row(usize::MAX), Food::Watermelon);
}
