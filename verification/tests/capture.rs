use omarchy_circle_search::capture::{
    capture_file_name, fullscreen_capture_file_name, selection_region, Region, Selection,
};

#[test]
fn geometry_string_format() {
    let r = Region { x: 10, y: 20, width: 300, height: 400 };
    assert_eq!(r.geometry_string(), "10,20 300x400");
    let r = Region { x: -5, y: 0, width: 0, height: 7 };
    assert_eq!(r.geometry_string(), "-5,0 0x7");
    let r = Region { x: i32::MIN, y: i32::MAX, width: u32::MAX, height: 1 };
    assert_eq!(r.geometry_string(), "-2147483648,2147483647 4294967295x1");
}

#[test]
fn capture_file_names() {
    assert_eq!(capture_file_name(4242), "circle-search-4242.png");
    assert_eq!(fullscreen_capture_file_name(0), "circle-search-full-0.png");
}

#[test]
fn accepted_selection_is_padded_bounding_box() {
    let pts = vec![(100, 200), (150, 180), (130, 260)];
    assert_eq!(
        selection_region(&pts),
        Selection::Accepted(Region { x: 92, y: 172, width: 66, height: 96 })
    );
}

#[test]
fn selection_is_clamped_at_the_screen_edge() {
    let pts = vec![(3, 1), (40, 50)];
    assert_eq!(
        selection_region(&pts),
        Selection::Accepted(Region { x: 0, y: 0, width: 48, height: 58 })
    );
}

#[test]
fn tiny_selections_are_rejected() {
    // a single click-like stroke: the padded box is 16 pixels, still accepted
    assert_eq!(
        selection_region(&[(50, 50), (50, 50)]),
        Selection::Accepted(Region { x: 42, y: 42, width: 16, height: 16 })
    );
    // off-screen to the left: width 1
    assert_eq!(selection_region(&[(-20, 50), (-7, 90)]), Selection::TooSmall);
    assert_eq!(selection_region(&[(-30, 50), (-20, 90)]), Selection::TooSmall);
}

#[test]
fn too_few_points_select_nothing() {
    assert_eq!(selection_region(&[]), Selection::Incomplete);
    assert_eq!(selection_region(&[(10, 10)]), Selection::Incomplete);
}

#[test]
fn selection_saturates_far_away_points() {
    let pts = vec![(i64::MIN, i64::MIN), (i64::MAX, i64::MAX)];
    assert_eq!(
        selection_region(&pts),
        Selection::Accepted(Region { x: 0, y: 0, width: u32::MAX, height: u32::MAX })
    );
    let pts = vec![(i64::MAX - 1, 5), (i64::MAX, 100)];
    assert_eq!(
        selection_region(&pts),
        Selection::Accepted(Region { x: i32::MAX, y: 0, width: 1 << 31, height: 108 })
    );
    let pts = vec![(-5000, 5), (-4000, 100)];
    assert_eq!(selection_region(&pts), Selection::TooSmall);
}
