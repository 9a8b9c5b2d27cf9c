use varmint::display::stats::{render, StatsHud, BACKGROUND, BORDER, HEIGHT, TEXT, WIDTH};
use varmint::display::{merge_rects, DisplayBuffer, Rect};

#[test]
fn merged_rectangle_holds_both() {
    assert_eq!(merge_rects((0, 0, 10, 10), (5, 5, 10, 2)), (0, 0, 15, 10));
    assert_eq!(merge_rects((20, 4, 1, 1), (2, 8, 3, 3)), (2, 4, 19, 7));
}

#[test]
fn damage_is_clipped_to_source_and_display() {
    let mut d = DisplayBuffer::new();
    d.resize(100, 50);
    let source = Rect { x: 10, y: 10, width: 100, height: 100 };
    let damage = Rect { x: 0, y: 0, width: 30, height: 20 };
    assert_eq!(d.clip_damage(source, damage), Some((0, 0, 20, 10)));
    let far = Rect { x: 500, y: 500, width: 5, height: 5 };
    assert_eq!(d.clip_damage(source, far), None);
}

#[test]
fn published_pixels_reach_the_window() {
    let mut d = DisplayBuffer::new();
    d.resize(4, 2);
    let mut front = Vec::new();
    let first = d.take_update(0, &mut front).unwrap();
    assert_eq!(first.dirty_rect, (0, 0, 4, 2));
    assert_eq!(front, vec![0; 8]);
    let data: Vec<u8> = (0u8..32).collect();
    let full = Rect { x: 0, y: 0, width: 4, height: 2 };
    let damage = Rect { x: 1, y: 1, width: 2, height: 1 };
    assert!(d.publish_pixels(&data, 16, full, damage));
    let u = d.take_update(first.sequence, &mut front).unwrap();
    assert_eq!(u.dirty_rect, (1, 1, 2, 1));
    assert_eq!(u.iosurface_id, None);
    assert_eq!(front[5], u32::from_le_bytes([20, 21, 22, 23]));
    assert_eq!(front[6], u32::from_le_bytes([24, 25, 26, 27]));
    assert_eq!(front[4], 0);
    assert!(d.take_update(u.sequence, &mut front).is_none());
}

#[test]
fn short_pixel_data_is_refused() {
    let mut d = DisplayBuffer::new();
    d.resize(4, 2);
    let full = Rect { x: 0, y: 0, width: 4, height: 2 };
    assert!(!d.publish_pixels(&[0u8; 20], 16, full, full));
    assert!(d.publish_iosurface(7, full, full));
    let mut front = Vec::new();
    let u = d.take_update(0, &mut front).unwrap();
    assert_eq!(u.iosurface_id, Some(7));
}

#[test]
fn overlay_has_a_border_and_text() {
    let fps: Vec<char> = "FPS     60.0".chars().collect();
    let ms: Vec<char> = "DISPLAY 1.25 MS".chars().collect();
    let p = render(&fps, &ms);
    let w = WIDTH as usize;
    assert_eq!(p.len(), (WIDTH * HEIGHT) as usize);
    assert_eq!(p[0], BORDER);
    assert_eq!(p[w * (HEIGHT as usize) - 1], BORDER);
    assert_eq!(p[w + 1], BACKGROUND);
    assert!(p.iter().any(|px| *px == TEXT));
    let none: Vec<char> = Vec::new();
    let blank = render(&none, &none);
    assert!(!blank.iter().any(|px| *px == TEXT));
}

#[test]
fn overlay_counts_frames_in_windows() {
    let mut hud = StatsHud::new();
    assert!(!hud.is_visible());
    hud.record_frame(true, 5, 0);
    assert!(hud.refresh(2_000_000_000).is_none());
    hud.set_visible(true);
    assert!(hud.take_pixels().is_some());
    assert!(hud.take_pixels().is_none());
    hud.record_frame(true, 5, 100);
    hud.record_frame(true, 7, 200);
    hud.record_frame(false, 9, 300);
    hud.record_frame(true, 11, 400);
    assert!(hud.refresh(500_000_000).is_none());
    let s = hud.refresh(1_000_000_100).unwrap();
    assert_eq!(s.presented, 2);
    assert_eq!(s.display_ns, 18);
    assert_eq!(s.elapsed_ns, 1_000_000_000);
    assert!(hud.refresh(1_000_000_200).is_none());
}

#[test]
fn overlay_refresh_draws_the_figures() {
    let mut hud = StatsHud::new();
    hud.set_visible(true);
    hud.take_pixels();
    hud.record_frame(true, 0, 0);
    hud.record_frame(true, 3_000_000, 10);
    hud.record_frame(true, 5_000_000, 20);
    let s = hud.refresh(2_000_000_000).unwrap();
    assert_eq!(s.presented, 2);
    let fps: Vec<char> = "FPS     1.0".chars().collect();
    let display: Vec<char> = "DISPLAY 4.00 MS".chars().collect();
    assert_eq!(hud.take_pixels().unwrap(), render(&fps, &display));
}

#[test]
fn figures_round_ties_to_even() {
    let mut hud = StatsHud::new();
    hud.set_visible(true);
    hud.take_pixels();
    hud.record_frame(true, 0, 0);
    hud.record_frame(true, 1_125_000, 10);
    let s = hud.refresh(4_000_000_000).unwrap();
    assert_eq!(s.presented, 1);
    let fps: Vec<char> = "FPS     0.2".chars().collect();
    let display: Vec<char> = "DISPLAY 1.12 MS".chars().collect();
    assert_eq!(hud.take_pixels().unwrap(), render(&fps, &display));
    hud.record_frame(true, 1_135_000, 4_000_000_010);
    hud.record_frame(true, 0, 4_000_000_020);
    hud.refresh(8_000_000_000).unwrap();
    let fps: Vec<char> = "FPS     0.5".chars().collect();
    let display: Vec<char> = "DISPLAY 0.57 MS".chars().collect();
    assert_eq!(hud.take_pixels().unwrap(), render(&fps, &display));
}
