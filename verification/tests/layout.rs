use spymux::app::App;
use spymux::layout::PaneRegion;
use spymux::navigate::Movement;

fn rect(x: u16, y: u16, width: u16, height: u16) -> PaneRegion {
    PaneRegion { x, y, width, height }
}

#[test]
fn pane_in_direction_moves_right() {
    let pane_regions = vec![rect(0, 0, 10, 5), rect(12, 0, 10, 5)];

    assert_eq!(App::pane_in_direction(&pane_regions, 0, Movement::Right), Some(1));
}

#[test]
fn pane_in_direction_handles_missing_columns() {
    let pane_regions = vec![rect(0, 0, 10, 5), rect(12, 0, 10, 5), rect(0, 8, 10, 5)];

    assert_eq!(App::pane_in_direction(&pane_regions, 1, Movement::Down), Some(2));
}

#[test]
fn pane_in_direction_stays_put_at_the_edge() {
    let pane_regions = vec![rect(0, 0, 10, 5), rect(12, 0, 10, 5)];

    assert_eq!(App::pane_in_direction(&pane_regions, 0, Movement::Right), Some(1));
    assert_eq!(App::pane_in_direction(&pane_regions, 1, Movement::Right), None);
    assert_eq!(App::pane_in_direction(&pane_regions, 0, Movement::Left), None);
    assert_eq!(App::pane_in_direction(&pane_regions, 0, Movement::Up), None);
    assert_eq!(App::pane_in_direction(&pane_regions, 2, Movement::Left), None);
    assert_eq!(App::pane_in_direction(&[], 0, Movement::Left), None);
}

#[test]
fn pane_in_direction_prefers_nearest_then_least_drift_then_first() {
    let pane_regions = vec![
        rect(0, 10, 10, 10),
        rect(20, 30, 10, 10),
        rect(20, 12, 10, 10),
        rect(20, 8, 10, 10),
        rect(12, 40, 10, 10),
    ];

    assert_eq!(App::pane_in_direction(&pane_regions, 0, Movement::Right), Some(4));
    assert_eq!(App::pane_in_direction(&pane_regions[..4], 0, Movement::Right), Some(2));
    assert_eq!(App::pane_in_direction(&pane_regions, 1, Movement::Up), Some(2));
    assert_eq!(App::pane_in_direction(&pane_regions, 2, Movement::Left), Some(4));
    assert_eq!(App::pane_in_direction(&pane_regions[..4], 2, Movement::Left), Some(0));
}

#[test]
fn pane_center_halves_the_extent() {
    assert_eq!(App::pane_center(rect(0, 0, 10, 5)), (5, 2));
    assert_eq!(App::pane_center(rect(65535, 65535, 65535, 65535)), (98302, 98302));
}

#[test]
fn rect_contains_excludes_far_edges() {
    let region = rect(2, 3, 4, 5);

    assert!(App::rect_contains(region, 2, 3));
    assert!(App::rect_contains(region, 5, 7));
    assert!(!App::rect_contains(region, 6, 7));
    assert!(!App::rect_contains(region, 5, 8));
    assert!(!App::rect_contains(region, 1, 3));
    assert!(!App::rect_contains(rect(65530, 0, 10, 1), 65535, 0));
    assert!(App::rect_contains(rect(65530, 0, 10, 1), 65534, 0));
}

#[test]
fn grid_for_five_panes_has_three_columns_and_two_rows() {
    assert_eq!(App::grid_size(5), (3, 2));
}

#[test]
fn grid_size_is_the_smallest_square() {
    assert_eq!(App::grid_size(0), (1, 0));
    assert_eq!(App::grid_size(1), (1, 1));
    assert_eq!(App::grid_size(2), (2, 1));
    assert_eq!(App::grid_size(4), (2, 2));
    assert_eq!(App::grid_size(7), (3, 3));
    assert_eq!(App::grid_size(9), (3, 3));
    assert_eq!(App::grid_size(10), (4, 3));
    assert_eq!(App::grid_size(17), (5, 4));
}

#[test]
fn append_cells_stops_at_the_limit() {
    let mut regions = vec![rect(0, 0, 1, 1)];
    let cells = vec![rect(1, 0, 1, 1), rect(2, 0, 1, 1), rect(3, 0, 1, 1)];

    App::append_cells(&mut regions, &cells, 3);

    assert_eq!(regions, vec![rect(0, 0, 1, 1), rect(1, 0, 1, 1), rect(2, 0, 1, 1)]);

    App::append_cells(&mut regions, &cells, 3);

    assert_eq!(regions.len(), 3);
}

#[test]
fn compute_pane_regions_for_five_panes() {
    let regions = App::compute_pane_regions(rect(0, 0, 90, 20), 5);

    assert_eq!(
        regions,
        vec![
            rect(0, 0, 30, 10),
            rect(30, 0, 30, 10),
            rect(60, 0, 30, 10),
            rect(0, 10, 30, 10),
            rect(30, 10, 30, 10),
        ]
    );
}

#[test]
fn compute_pane_regions_without_panes_or_area() {
    assert_eq!(App::compute_pane_regions(rect(0, 0, 90, 20), 0), vec![]);
    assert_eq!(
        App::compute_pane_regions(rect(3, 4, 0, 0), 2),
        vec![rect(3, 4, 0, 0), rect(3, 4, 0, 0)]
    );
}

#[test]
fn two_panes_side_by_side_move_right_then_stay() {
    let regions = App::compute_pane_regions(rect(0, 0, 80, 24), 2);

    assert_eq!(regions, vec![rect(0, 0, 40, 24), rect(40, 0, 40, 24)]);
    assert_eq!(App::pane_in_direction(&regions, 0, Movement::Right), Some(1));
    assert_eq!(App::pane_in_direction(&regions, 1, Movement::Right), None);
}

#[test]
fn regions_lie_within_the_area_row_by_row() {
    for (area, pane_count) in [(rect(3, 5, 97, 41), 7usize), (rect(0, 0, 2, 1), 5), (rect(65000, 65000, 600, 600), 3)] {
        let regions = App::compute_pane_regions(area, pane_count);
        let (columns, _) = App::grid_size(pane_count);

        assert_eq!(regions.len(), pane_count);

        for (i, region) in regions.iter().enumerate() {
            assert!(area.x <= region.x && area.y <= region.y);
            assert!(u32::from(region.x) + u32::from(region.width) <= u32::from(area.x) + u32::from(area.width));
            assert!(u32::from(region.y) + u32::from(region.height) <= u32::from(area.y) + u32::from(area.height));
            assert_eq!(region.y, regions[i / columns * columns].y);
            assert_eq!(region.height, regions[i / columns * columns].height);
        }
    }
}
