use fmr::key::{handle_key, handle_key_to_option, KeyEvent, KeyModifiers};
use fmr::reader::{HideTextState, PagedReaderState, ReaderMode, ReaderSetting, Sizer};
use fmr::texture::{AnimatedTextureHandle, AnimatedTextureViewState, LoadingTexture,
    SplittedTextureHandle, TextureFrameHandle, TextureHandle};
use fmr::{ReadingProgress, ReadingProgressValue, UnsignedExt};

const KEY_UP: u32 = 1;
const KEY_DOWN: u32 = 2;

fn pressed(key: u32) -> KeyEvent {
    KeyEvent { key, modifiers: KeyModifiers::default(), pressed: true, repeat: false }
}

#[test]
fn checked_signed_steps_stay_in_range() {
    assert_eq!(5usize.checked_add_signed_ext(3), Some(8));
    assert_eq!(5usize.checked_add_signed_ext(-5), Some(0));
    assert_eq!(5usize.checked_add_signed_ext(-6), None);
    assert_eq!(usize::MAX.checked_add_signed_ext(1), None);
    assert_eq!(0usize.checked_add_signed_ext(isize::MIN), None);
}

#[test]
fn page_turns_stay_inside_the_collection() {
    let mut state = PagedReaderState::new();
    assert!(state.change_index_by(1, 5));
    assert_eq!(state.index, 1);
    assert!(state.change_index_by(3, 5));
    assert_eq!(state.index, 4);
    assert!(!state.change_index_by(1, 5));
    assert_eq!(state.index, 4);
    assert!(!state.change_index_by(0, 5));
    assert!(state.change_index_by(-4, 5));
    assert_eq!(state.index, 0);
    assert!(!state.change_index_by(-1, 5));
}

#[test]
fn page_turn_resets_snap_to_the_landing_edge() {
    let mut state = PagedReaderState::new();
    state.reset(-1);
    assert!(state.snap.to_end_vertical);
    assert!(state.snap.to_end_horizontal);
    state.reset(1);
    assert!(!state.snap.to_end_vertical);
    assert!(!state.snap.to_end_horizontal);
    state.read_from_right = true;
    state.reset(1);
    assert!(state.snap.to_end_horizontal);
    assert!(!state.snap.to_end_vertical);
    state.reset(-1);
    assert!(!state.snap.to_end_horizontal);
    assert!(state.snap.to_end_vertical);
}

#[test]
fn the_page_indicator_hides_after_its_span() {
    let state = HideTextState { last_reset_ms: 1000, duration_ms: 1000 };
    assert!(state.should_show_at(1000));
    assert!(state.should_show_at(1999));
    assert!(!state.should_show_at(2000));
    assert!(state.should_show_at(500));
}

#[test]
fn key_steps_fire_only_on_matching_presses() {
    assert_eq!(
        handle_key_to_option(true, &pressed(KEY_UP), KEY_UP, KEY_DOWN, |m| m.is_none(), |s| s),
        Some(-1),
    );
    assert_eq!(
        handle_key_to_option(true, &pressed(KEY_DOWN), KEY_UP, KEY_DOWN, |m| m.is_none(), |s| s),
        Some(1),
    );
    assert_eq!(
        handle_key_to_option(true, &pressed(7), KEY_UP, KEY_DOWN, |m| m.is_none(), |s| s),
        None,
    );
    assert_eq!(
        handle_key_to_option(false, &pressed(KEY_UP), KEY_UP, KEY_DOWN, |m| m.is_none(), |s| s),
        None,
    );
    let mut released = pressed(KEY_UP);
    released.pressed = false;
    assert_eq!(
        handle_key_to_option(true, &released, KEY_UP, KEY_DOWN, |m| m.is_none(), |s| s),
        None,
    );
}

#[test]
fn modifiers_can_veto_a_key_step() {
    let mut event = pressed(KEY_UP);
    event.modifiers.ctrl = true;
    assert_eq!(
        handle_key_to_option(true, &event, KEY_UP, KEY_DOWN, |m| m.is_none(), |s| s),
        None,
    );
    assert!(handle_key(true, &event, KEY_UP, KEY_DOWN, |m| m.ctrl, |_| true));
}

#[test]
fn reading_progress_never_moves_backwards() {
    let mut progress = ReadingProgress::new();
    progress.insert("/a/vol1", ReadingProgressValue::new(7, 20));
    progress.insert("/a/vol1", ReadingProgressValue::new(3, 20));
    assert_eq!(progress.get("/a/vol1").unwrap().page, 7);
    progress.insert("/a/vol1", ReadingProgressValue::new(9, 20));
    assert_eq!(progress.get("/a/vol1").unwrap().page, 9);
    assert_eq!(progress.get("/elsewhere"), None);
}

#[test]
fn finishing_sticks_and_jumps_to_the_last_page() {
    let mut progress = ReadingProgress::new();
    progress.insert_finish("/a/unknown");
    assert_eq!(progress.get("/a/unknown"), None);
    progress.insert("/a/vol1", ReadingProgressValue::new(7, 20));
    progress.insert_finish("/a/vol1");
    let done = progress.get("/a/vol1").unwrap();
    assert_eq!(done.page, 20);
    assert!(done.is_finished);
    progress.insert("/a/vol1", ReadingProgressValue::new(2, 20));
    assert!(progress.get("/a/vol1").unwrap().is_finished);
}

#[test]
fn the_sizer_tracks_its_axes() {
    let mut sizer = Sizer::default();
    assert!(!sizer.fit_horizontal && !sizer.fit_vertical);
    sizer.set_fit_horizontal(true);
    sizer.set_fit_vertical(true);
    assert!(sizer.fit_horizontal && sizer.fit_vertical);
    sizer.set_fit_horizontal(false);
    assert!(!sizer.fit_horizontal && sizer.fit_vertical);
    assert_eq!(ReaderSetting::default().mode, ReaderMode::Paged);
}

#[test]
fn a_tiled_texture_sums_its_grid() {
    let handle = SplittedTextureHandle::new(
        "page".to_string(),
        vec![vec![(300, 200), (100, 200)], vec![(300, 50), (100, 50)]],
    );
    assert_eq!(handle.size(), [400, 250]);
}

#[test]
fn an_animated_texture_takes_the_largest_frame() {
    let small = TextureFrameHandle {
        delay_ms: 40,
        texture: SplittedTextureHandle::new("f0".to_string(), vec![vec![(10, 30)]]),
    };
    let wide = TextureFrameHandle {
        delay_ms: 40,
        texture: SplittedTextureHandle::new("f1".to_string(), vec![vec![(50, 20)]]),
    };
    let animated = AnimatedTextureHandle::new("anim".to_string(), vec![small, wide]);
    assert_eq!(animated.max_size(), [50, 30]);
    assert_eq!(animated.items().len(), 2);
    assert_eq!(animated.items()[0].delay(), 40);
    let handle = TextureHandle::AnimatedTexture(animated);
    assert_eq!(handle.max_size(), [50, 30]);
}

#[test]
fn the_animation_cursor_wraps_one_frame_early() {
    let frame = |name: &str| TextureFrameHandle {
        delay_ms: 40,
        texture: SplittedTextureHandle::new(name.to_string(), vec![vec![(1, 1)]]),
    };
    let animated = AnimatedTextureHandle::new(
        "anim".to_string(),
        vec![frame("f0"), frame("f1"), frame("f2")],
    );
    let mut view = AnimatedTextureViewState::new(animated);
    assert_eq!(view.index, 0);
    view.next_index();
    assert_eq!(view.index, 1);
    view.next_index();
    assert_eq!(view.index, 0);
    assert_eq!(view.frame().texture.name, "f0");
}

#[test]
fn the_loading_placeholder_reserves_its_size() {
    let known = LoadingTexture::new("p".to_string(), Some((64, 48)));
    assert_eq!(known.size_2(), [64, 48]);
    assert_eq!(known.name(), "p");
    let unknown = LoadingTexture::new("q".to_string(), None);
    assert_eq!(unknown.size_2(), [20, 20]);
}
