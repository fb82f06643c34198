use drawing_process::cost::{heuristic, DrawingPixel, Rgb};
use drawing_process::engine::{DrawingError, DrawingState, GenerationSettings, UnprocessedPreset};
use drawing_process::params::DrawingParams;
use drawing_process::stroke::{stroke_reward_with_params, PixelData};
use drawing_process::worker::{ProgressMsg, Worker};
use drawing_process::DRAWING_CANVAS_SIZE;

const BLACK: Rgb = (0, 0, 0);
const WHITE: Rgb = (255, 255, 255);

fn params(stroke_reward: i64) -> DrawingParams {
    DrawingParams {
        stroke_reward,
        max_dist_base: 10,
        max_dist_decay_num: 1,
        max_dist_decay_den: 2,
        max_dist_min: 2,
    }
}

fn settings(sidelen: u32) -> GenerationSettings {
    GenerationSettings { sidelen, proximity_importance: 0 }
}

fn preset(width: u32, height: u32, bytes: usize) -> UnprocessedPreset {
    UnprocessedPreset { width, height, source_img: vec![0u8; bytes] }
}

fn two_by_two_colors() -> Vec<Rgb> {
    vec![BLACK, WHITE, WHITE, BLACK]
}

fn two_by_two() -> DrawingState {
    DrawingState::new(
        preset(2, 2, 12),
        settings(2),
        &two_by_two_colors(),
        vec![WHITE, BLACK, WHITE, BLACK],
        vec![1; 4],
        &params(5),
    )
    .unwrap()
}

fn fresh_cells(n: usize, frame: u32) -> Vec<PixelData> {
    vec![PixelData { stroke_id: 0, last_edited: frame }; n]
}

fn color_dist(a: Rgb, b: Rgb) -> i64 {
    let d = |x: u8, y: u8| (x as i64 - y as i64) * (x as i64 - y as i64);
    d(a.0, b.0) + d(a.1, b.1) + d(a.2, b.2)
}

#[test]
fn max_dist_decays_and_floors() {
    let p = params(0);
    assert_eq!(p.max_dist(0), 10);
    assert_eq!(p.max_dist(29), 10);
    assert_eq!(p.max_dist(30), 5);
    assert_eq!(p.max_dist(60), 3);
    assert_eq!(p.max_dist(90), 2);
    assert_eq!(p.max_dist(300), 2);
}

#[test]
fn max_dist_never_grows_with_age() {
    let p = DrawingParams {
        stroke_reward: 0,
        max_dist_base: 64,
        max_dist_decay_num: 3,
        max_dist_decay_den: 4,
        max_dist_min: 4,
    };
    let mut prev = p.max_dist(0);
    assert_eq!(prev, 64);
    for age in 1..2000u32 {
        let r = p.max_dist(age);
        assert!(r <= prev);
        assert!(r >= 4);
        prev = r;
    }
    assert_eq!(p.max_dist(u32::MAX), 4);
}

#[test]
fn max_dist_without_decay_keeps_base() {
    let p = DrawingParams {
        stroke_reward: 0,
        max_dist_base: 7,
        max_dist_decay_num: 1,
        max_dist_decay_den: 1,
        max_dist_min: 1,
    };
    assert_eq!(p.max_dist(10_000), 7);
}

#[test]
fn init_canvas_is_unclaimed_and_stamped() {
    let cells = PixelData::init_canvas(42);
    assert_eq!(cells.len(), DRAWING_CANVAS_SIZE * DRAWING_CANVAS_SIZE);
    assert!(cells.iter().all(|c| c.stroke_id == 0 && c.last_edited == 42));
}

#[test]
fn heuristic_combines_color_and_distance() {
    // colour: 9 + 16 + 0 = 25, times weight 2; distance: 9 + 16 = 25, times 5
    assert_eq!(heuristic((0, 0), (3, 4), (10, 20, 30), (13, 24, 30), 2, 5), 175);
    assert_eq!(heuristic((1, 1), (1, 1), BLACK, WHITE, 1, 100), 3 * 255 * 255);
    assert_eq!(heuristic((0, 0), (0, 2), BLACK, BLACK, 1, -3), -12);
}

fn identity_pixels(n: usize) -> Vec<DrawingPixel> {
    (0..n * n)
        .map(|i| DrawingPixel::new((i % n) as u16, (i / n) as u16, 0))
        .collect()
}

#[test]
fn stroke_reward_counts_only_adjacent_cells() {
    // 3 x 3 grid: cells 0 and 1 are adjacent and share stroke 7; cell 8 also
    // has stroke 7 but touches neither.
    let mut data: Vec<PixelData> = (0..9).map(|i| PixelData { stroke_id: 100 + i, last_edited: 0 }).collect();
    data[0].stroke_id = 7;
    data[1].stroke_id = 7;
    data[8].stroke_id = 7;
    let pixels = identity_pixels(3);
    assert_eq!(stroke_reward_with_params(0, 0, &data, &pixels, 3, 11), 11);
    assert_eq!(stroke_reward_with_params(1, 1, &data, &pixels, 3, 11), 11);
    assert_eq!(stroke_reward_with_params(8, 8, &data, &pixels, 3, 11), 0);
}

#[test]
fn stroke_reward_ignores_diagonals() {
    let mut data: Vec<PixelData> = (0..9).map(|i| PixelData { stroke_id: 100 + i, last_edited: 0 }).collect();
    // cell 2 is (2, 0); cell 4 is (1, 1), its diagonal neighbour
    data[2].stroke_id = 5;
    data[4].stroke_id = 5;
    let pixels = identity_pixels(3);
    assert_eq!(stroke_reward_with_params(2, 2, &data, &pixels, 3, 9), 0);
    // the occupant of 2 placed at 3 = (0, 1) sits next to 4
    assert_eq!(stroke_reward_with_params(3, 2, &data, &pixels, 3, 9), 9);
}

#[test]
fn stroke_reward_looks_through_the_permutation() {
    // 2 x 2 grid; canvas 1 holds source 3, whose cell has stroke 4
    let mut data = fresh_cells(4, 0);
    data[3].stroke_id = 4;
    data[0].stroke_id = 4;
    let mut pixels = identity_pixels(2);
    pixels[1] = DrawingPixel::new(1, 1, 0);
    pixels[3] = DrawingPixel::new(1, 0, 0);
    // canvas 0 holds source 0 (stroke 4); neighbours 1 (source 3, stroke 4) and 2
    assert_eq!(stroke_reward_with_params(0, 0, &data, &pixels, 2, 3), 3);
    // canvas 2 holds source 2 (stroke 0); neighbours 0 (stroke 4) and 3 (source 1, stroke 0)
    assert_eq!(stroke_reward_with_params(2, 2, &data, &pixels, 2, 3), 3);
    data[1].stroke_id = 8;
    assert_eq!(stroke_reward_with_params(2, 2, &data, &pixels, 2, 3), 0);
}

#[test]
fn new_places_each_source_on_its_own_cell() {
    let st = two_by_two();
    assert_eq!(st.assignments(), vec![0, 1, 2, 3]);
}

#[test]
fn new_rejects_short_image_buffer() {
    let r = DrawingState::new(
        preset(2, 2, 11),
        settings(2),
        &two_by_two_colors(),
        vec![WHITE; 4],
        vec![1; 4],
        &params(0),
    );
    assert!(matches!(r, Err(DrawingError::InvalidImage)));
}

#[test]
fn new_rejects_mismatched_arrays() {
    let r = DrawingState::new(
        preset(2, 2, 12),
        settings(2),
        &two_by_two_colors(),
        vec![WHITE; 4],
        vec![1; 3],
        &params(0),
    );
    assert!(matches!(r, Err(DrawingError::SizeMismatch)));
    let r = DrawingState::new(preset(0, 0, 0), settings(0), &[], vec![], vec![], &params(0));
    assert!(matches!(r, Err(DrawingError::SizeMismatch)));
}

#[test]
fn attempt_swap_accepts_strict_improvement() {
    let mut st = two_by_two();
    let data = fresh_cells(4, 0);
    // cell 0 holds black where white is wanted, cell 1 the reverse
    assert!(st.attempt_swap(0, 1, 0, &two_by_two_colors(), &data, 0, &params(5)));
    assert_eq!(st.assignments(), vec![1, 0, 2, 3]);
}

#[test]
fn attempt_swap_rejects_worsening_swap() {
    let mut st = two_by_two();
    let data = fresh_cells(4, 0);
    // cells 2 and 3 already match their targets
    assert!(!st.attempt_swap(2, 1, 0, &two_by_two_colors(), &data, 0, &params(5)));
    assert_eq!(st.assignments(), vec![0, 1, 2, 3]);
}

#[test]
fn attempt_swap_partner_radius_vetoes() {
    let mut st = two_by_two();
    let data = fresh_cells(4, 0);
    let p = DrawingParams {
        stroke_reward: 0,
        max_dist_base: 0,
        max_dist_decay_num: 1,
        max_dist_decay_den: 2,
        max_dist_min: 0,
    };
    assert!(!st.attempt_swap(0, 1, 0, &two_by_two_colors(), &data, 0, &p));
    assert_eq!(st.assignments(), vec![0, 1, 2, 3]);
}

#[test]
fn attempt_swap_clamps_partner_to_grid() {
    let mut st = two_by_two();
    let data = fresh_cells(4, 0);
    // an offset of 5 from cell 0 clamps to column 1: cell 1
    assert!(st.attempt_swap(0, 5, -3, &two_by_two_colors(), &data, 0, &params(5)));
    assert_eq!(st.assignments(), vec![1, 0, 2, 3]);
}

#[test]
fn step_reaches_zero_color_mismatch() {
    let colors = two_by_two_colors();
    let targets = vec![WHITE, BLACK, WHITE, BLACK];
    let mut st = two_by_two();
    let data = fresh_cells(4, 0);
    let mut last = None;
    for _ in 0..10 {
        if let Some(a) = st.step(&colors, &data, 0, 64, &params(5)) {
            last = Some(a);
        }
    }
    assert!(last.is_some());
    let a = st.assignments();
    let mut sorted = a.clone();
    sorted.sort();
    assert_eq!(sorted, vec![0, 1, 2, 3]);
    let total: i64 = (0..4).map(|i| color_dist(colors[a[i]], targets[i])).sum();
    assert_eq!(total, 0);
    assert_eq!(last.unwrap(), a);
}

#[test]
fn step_without_improvement_returns_none() {
    let colors = vec![WHITE, BLACK, WHITE, BLACK];
    let mut st = DrawingState::new(
        preset(2, 2, 12),
        settings(2),
        &colors,
        vec![WHITE, BLACK, WHITE, BLACK],
        vec![1; 4],
        &params(0),
    )
    .unwrap();
    let data = fresh_cells(4, 0);
    assert_eq!(st.step(&colors, &data, 0, 200, &params(0)), None);
    assert_eq!(st.assignments(), vec![0, 1, 2, 3]);
}

#[test]
fn step_keeps_a_permutation_on_a_larger_grid() {
    let n = 8usize;
    let colors: Vec<Rgb> = (0..n * n).map(|i| ((i * 37 % 256) as u8, (i * 11 % 256) as u8, (i * 3) as u8)).collect();
    let targets: Vec<Rgb> = (0..n * n).map(|i| ((i * 4) as u8, 0, (255 - i * 4) as u8)).collect();
    let mut st = DrawingState::new(
        preset(n as u32, n as u32, 3 * n * n),
        GenerationSettings { sidelen: n as u32, proximity_importance: 2 },
        &colors,
        targets,
        (0..n * n).map(|i| (i % 5) as i64).collect(),
        &params(-50),
    )
    .unwrap();
    let mut data = fresh_cells(n * n, 100);
    for (i, c) in data.iter_mut().enumerate() {
        c.stroke_id = (i % 3) as u32;
        c.last_edited = (i * 7) as u32;
    }
    for _ in 0..5 {
        st.step(&colors, &data, 120, 500, &params(-50));
        let mut sorted = st.assignments();
        sorted.sort();
        assert_eq!(sorted, (0..n * n).collect::<Vec<_>>());
    }
}

#[test]
fn same_seed_same_decisions() {
    let colors = two_by_two_colors();
    let data = fresh_cells(4, 0);
    let mut a = two_by_two();
    let mut b = two_by_two();
    for _ in 0..5 {
        assert_eq!(a.step(&colors, &data, 0, 3, &params(5)), b.step(&colors, &data, 0, 3, &params(5)));
    }
    assert_eq!(a.assignments(), b.assignments());
}

#[test]
fn worker_publishes_after_a_batch_with_swaps() {
    let mut w = Worker::new(two_by_two(), 3);
    let data = fresh_cells(4, 0);
    let msgs = w.run_batch(&two_by_two_colors(), &data, 0, &params(5));
    assert_eq!(msgs.len(), 1);
    match &msgs[0] {
        ProgressMsg::UpdateAssignments(v) => assert_eq!(v, &w.assignments()),
        _ => panic!("expected an assignment update"),
    }
    assert!(w.observe_generation(3).is_empty());
    assert!(w.is_running());
}

#[test]
fn worker_cancels_once_and_stops() {
    let mut w = Worker::new(two_by_two(), 3);
    let data = fresh_cells(4, 0);
    let msgs = w.observe_generation(4);
    assert_eq!(msgs.len(), 1);
    assert!(matches!(msgs[0], ProgressMsg::Cancelled));
    assert!(!w.is_running());
    let before = w.assignments();
    assert!(w.run_batch(&two_by_two_colors(), &data, 0, &params(5)).is_empty());
    assert_eq!(w.assignments(), before);
    assert!(w.observe_generation(5).is_empty());
    assert!(w.observe_generation(3).is_empty());
    assert!(!w.is_running());
}
