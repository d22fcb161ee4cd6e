use std::cmp::Ordering::{Equal, Greater, Less};
use tiny_pseudo_3d_renderer::clip::{clip_plan, Correction};
use tiny_pseudo_3d_renderer::edges::edge_pairs;

use Correction::{Clamp, Intersect, Keep};

#[test]
fn square_ahead_of_camera_is_not_clipped() {
    // the square (-1,5),(1,5),(1,7),(-1,7) seen from the origin facing forward:
    // depths 5, 5, 7, 7
    let plan = clip_plan(&vec![Greater, Greater, Greater, Greater]);
    assert_eq!(plan, vec![Keep, Keep, Keep, Keep]);
}

#[test]
fn square_behind_camera_is_clamped_everywhere() {
    // the same square with the camera turned around: depths -5, -5, -7, -7
    let plan = clip_plan(&vec![Less, Less, Less, Less]);
    assert_eq!(plan, vec![Clamp, Clamp, Clamp, Clamp]);
}

#[test]
fn vertex_behind_between_two_ahead_takes_the_earlier_edge() {
    let plan = clip_plan(&vec![Greater, Less, Greater, Greater]);
    assert_eq!(plan, vec![Keep, Intersect(0), Keep, Keep]);
}

#[test]
fn first_vertex_behind_is_moved_onto_closing_edge() {
    let plan = clip_plan(&vec![Less, Greater, Greater, Greater]);
    assert_eq!(plan, vec![Intersect(3), Keep, Keep, Keep]);
}

#[test]
fn last_vertex_behind_is_moved_onto_closing_edge() {
    let plan = clip_plan(&vec![Greater, Greater, Greater, Less]);
    assert_eq!(plan, vec![Keep, Keep, Keep, Intersect(0)]);
}

#[test]
fn behind_vertices_next_to_each_other() {
    let plan = clip_plan(&vec![Less, Less, Greater, Equal]);
    assert_eq!(plan, vec![Clamp, Intersect(2), Keep, Keep]);
}

#[test]
fn two_behind_between_two_ahead() {
    let plan = clip_plan(&vec![Greater, Less, Less, Greater]);
    assert_eq!(plan, vec![Keep, Intersect(0), Intersect(3), Keep]);
}

#[test]
fn vertices_on_the_near_plane_are_kept() {
    let plan = clip_plan(&vec![Equal, Less, Less, Less]);
    assert_eq!(plan, vec![Keep, Clamp, Clamp, Clamp]);
    let plan = clip_plan(&vec![Equal, Equal, Equal]);
    assert_eq!(plan, vec![Keep, Keep, Keep]);
}

#[test]
fn triangle_with_one_vertex_ahead() {
    let plan = clip_plan(&vec![Less, Greater, Less]);
    assert_eq!(plan, vec![Intersect(1), Keep, Intersect(1)]);
}

#[test]
fn clipping_twice_changes_nothing_more() {
    let signs = vec![Greater, Less, Less, Greater, Less];
    let plan = clip_plan(&signs);
    let clipped: Vec<_> = signs
        .iter()
        .zip(plan.iter())
        .map(|(s, c)| if *c == Keep { *s } else { Equal })
        .collect();
    assert!(clipped.iter().all(|s| *s != Less));
    assert_eq!(clip_plan(&clipped), vec![Keep; 5]);
}

#[test]
fn same_input_same_plan() {
    let signs = vec![Less, Greater, Equal, Less, Greater];
    assert_eq!(clip_plan(&signs), clip_plan(&signs));
}

#[test]
fn edges_close_the_polygon() {
    assert_eq!(edge_pairs(4), vec![(0, 1), (1, 2), (2, 3), (3, 0)]);
    assert_eq!(edge_pairs(3), vec![(0, 1), (1, 2), (2, 0)]);
    assert_eq!(edge_pairs(1), vec![(0, 0)]);
    assert!(edge_pairs(0).is_empty());
}
