use evosim::eye::Eye;
use evosim::food::Food;

const HALF: i64 = 500_000;

fn eye(fov_range: i64, fov_angle: i64, cells: usize) -> Eye {
    Eye::new(fov_range, fov_angle, cells)
}

#[test]
fn food_exactly_at_the_range_boundary_is_not_seen() {
    // Range 0.25; the food sits exactly 0.25 away.
    let eye = eye(250_000, 1_570_796, 13);
    let foods = vec![Food::new(750_000, HALF)];
    let vision = eye.process_vision(HALF, HALF, 0, &foods);
    assert_eq!(vision.len(), 13);
    assert!(vision.iter().all(|&c| c == 0));
}

#[test]
fn food_just_inside_the_range_boundary_is_seen() {
    let eye = eye(250_000, 1_570_796, 13);
    let foods = vec![Food::new(749_999, HALF)];
    let vision = eye.process_vision(HALF, HALF, 0, &foods);
    assert!(vision.iter().any(|&c| c > 0));
}

#[test]
fn food_at_the_angular_edge_maps_into_the_last_cell() {
    // A full-turn field of view; a food exactly behind the agent has
    // bearing pi, the far angular edge.
    let eye = eye(1_000_000, 6_283_184, 13);
    let foods = vec![Food::new(400_000, HALF)];
    let vision = eye.process_vision(HALF, HALF, 0, &foods);
    assert!(vision[12] > 0, "vision was {:?}", vision);
    for i in 0..12 {
        assert_eq!(vision[i], 0, "vision was {:?}", vision);
    }
}

#[test]
fn closer_food_contributes_more_energy() {
    let eye = eye(1_000_000, 6_283_184, 9);
    let near = vec![Food::new(600_000, HALF)];
    let far = vec![Food::new(900_000, HALF)];
    let vision_near = eye.process_vision(HALF, HALF, 0, &near);
    let vision_far = eye.process_vision(HALF, HALF, 0, &far);
    let near_total: i64 = vision_near.iter().sum();
    let far_total: i64 = vision_far.iter().sum();
    assert!(near_total > far_total);
}

#[test]
fn two_foods_in_one_cell_accumulate() {
    let eye = eye(1_000_000, 6_283_184, 9);
    let one = vec![Food::new(600_000, HALF)];
    let two = vec![Food::new(600_000, HALF), Food::new(600_000, HALF)];
    let vision_one = eye.process_vision(HALF, HALF, 0, &one);
    let vision_two = eye.process_vision(HALF, HALF, 0, &two);
    let total_one: i64 = vision_one.iter().sum();
    let total_two: i64 = vision_two.iter().sum();
    assert_eq!(total_two, 2 * total_one);
}

#[test]
fn vision_length_always_equals_the_cell_count() {
    let eye = eye(250_000, 2_467_400, 9);
    let foods: Vec<Food> = Vec::new();
    let vision = eye.process_vision(HALF, HALF, 0, &foods);
    assert_eq!(vision.len(), 9);
    assert_eq!(eye.cells(), 9);
}

#[test]
fn rotation_turns_the_picture() {
    // With the agent looking along +x, a food ahead lands mid-field; with
    // the agent looking away, the same food is out of a narrow view.
    let eye = eye(1_000_000, 1_570_796, 9);
    let foods = vec![Food::new(900_000, HALF)];
    let looking_at = eye.process_vision(HALF, HALF, 0, &foods);
    let looking_away = eye.process_vision(HALF, HALF, 3_141_592, &foods);
    assert!(looking_at.iter().any(|&c| c > 0));
    assert!(looking_away.iter().all(|&c| c == 0));
}
