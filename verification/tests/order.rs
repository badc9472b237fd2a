use fmr::loader::{ExplorerEntryLoaderSetting, ExplorerLoaderSetting, PriorityRange};
use fmr::reader::ReaderLoaderSetting;
use fmr::loader::TextureOption;
use fmr::split_and_interleave_at;

fn setting_at(index: usize) -> ExplorerLoaderSetting {
    ExplorerLoaderSetting { index, entry_setting: ExplorerEntryLoaderSetting::default() }
}

fn reader_setting(index: usize, prev: usize, next: usize) -> ReaderLoaderSetting {
    ReaderLoaderSetting {
        index,
        preload_prev: prev,
        preload_next: next,
        texture_option: TextureOption::default(),
    }
}

#[test]
fn visit_order_starts_at_focus_and_alternates() {
    assert_eq!(split_and_interleave_at(0, 6, 2), vec![2, 3, 1, 4, 0, 5]);
    assert_eq!(split_and_interleave_at(0, 5, 0), vec![0, 1, 2, 3, 4]);
    assert_eq!(split_and_interleave_at(0, 5, 4), vec![4, 3, 2, 1, 0]);
    assert_eq!(split_and_interleave_at(0, 1, 0), vec![0]);
    assert_eq!(split_and_interleave_at(0, 0, 0), Vec::<usize>::new());
    assert_eq!(split_and_interleave_at(2, 7, 4), vec![4, 5, 3, 6, 2]);
}

#[test]
fn visit_order_is_a_permutation() {
    for total in 1usize..9 {
        for focus in 0..total {
            let order = split_and_interleave_at(0, total, focus);
            assert_eq!(order.len(), total);
            assert_eq!(order[0], focus);
            let mut seen = vec![false; total];
            for &v in &order {
                assert!(v < total);
                assert!(!seen[v], "index repeated in visit order");
                seen[v] = true;
            }
            assert!(seen.iter().all(|&s| s));
        }
    }
}

#[test]
fn load_priorities_clamps_an_out_of_range_focus() {
    let order = setting_at(10).load_priorities(3);
    assert_eq!(order, vec![2, 1, 0]);
    let order = setting_at(1).load_priorities(4);
    assert_eq!(order, vec![1, 2, 0, 3]);
}

#[test]
fn priority_range_interleaves_within_its_bounds() {
    let range = PriorityRange::new(2..6);
    assert_eq!(range.interleave_at(3), vec![3, 4, 2, 5]);
    assert_eq!(range.interleave_at(0), vec![2, 3, 4, 5]);
    assert_eq!(range.interleave_at(100), vec![5, 4, 3, 2]);
}

#[test]
fn window_contains_focus_and_stays_inside_the_collection() {
    let range = reader_setting(2, 1, 1).range(5);
    assert_eq!(range, 1..4);
    let range = reader_setting(4, 1, 1).range(5);
    assert_eq!(range, 3..5);
    let range = reader_setting(0, 3, 2).range(5);
    assert_eq!(range, 0..3);
    let range = reader_setting(0, 0, 0).range(5);
    assert_eq!(range, 0..1);
}

#[test]
fn window_clamps_at_the_edges() {
    let range = reader_setting(7, 1, 1).range(5);
    assert!(range.start <= range.end && range.end <= 5);
    let range = reader_setting(0, 0, 0).range(0);
    assert_eq!(range, 0..0);
    let range = reader_setting(usize::MAX, 1, 5).range(4);
    assert!(range.start <= range.end && range.end <= 4);
}
