use fmr::loader::TextureOption;
use fmr::reader::ReaderLoaderSetting;
use fmr::scheduler::{SlotState, WindowedScheduler};

fn setting(index: usize, prev: usize, next: usize) -> ReaderLoaderSetting {
    ReaderLoaderSetting {
        index,
        preload_prev: prev,
        preload_next: next,
        texture_option: TextureOption::default(),
    }
}

#[test]
fn a_folder_of_five_with_focus_two_activates_exactly_the_window() {
    let mut scheduler = WindowedScheduler::new(5, setting(0, 0, 0));
    let plan = scheduler.on_setting_change(setting(2, 1, 1));
    assert_eq!(plan.cancels, Vec::<usize>::new());
    let mut spawns = plan.spawns.clone();
    spawns.sort();
    assert_eq!(spawns, vec![1, 2, 3]);

    // Moving the focus to 4 clamps the window to [3, 5): the tasks for 1 and
    // 2 are cancelled and reset to loading, and 4 is started.
    let plan = scheduler.on_setting_change(setting(4, 1, 1));
    let mut cancels = plan.cancels.clone();
    cancels.sort();
    assert_eq!(cancels, vec![1, 2]);
    assert_eq!(plan.spawns, vec![4]);
    for i in [1usize, 2] {
        assert!(!scheduler.entries[i].live);
        assert_eq!(scheduler.entries[i].slot, SlotState::Loading);
    }
    assert!(scheduler.entries[3].live);
    assert!(scheduler.entries[4].live);
}

#[test]
fn finished_entries_are_not_respawned() {
    let mut scheduler = WindowedScheduler::new(5, setting(0, 0, 0));
    scheduler.on_setting_change(setting(2, 1, 1));
    scheduler.task_finished(2, SlotState::Ready);
    scheduler.task_finished(3, SlotState::Failed);
    let plan = scheduler.on_setting_change(setting(2, 1, 1));
    assert_eq!(plan.cancels, Vec::<usize>::new());
    assert_eq!(plan.spawns, Vec::<usize>::new());
    assert_eq!(scheduler.entries[2].slot, SlotState::Ready);
    assert_eq!(scheduler.entries[3].slot, SlotState::Failed);
}

#[test]
fn cancelling_resets_the_slot_so_the_entry_can_resume() {
    let mut scheduler = WindowedScheduler::new(3, setting(0, 0, 0));
    let plan = scheduler.on_setting_change(setting(0, 0, 0));
    assert_eq!(plan.spawns, vec![0]);
    let plan = scheduler.on_setting_change(setting(2, 0, 0));
    assert_eq!(plan.cancels, vec![0]);
    assert_eq!(plan.spawns, vec![2]);
    // Coming back spawns entry 0 again.
    let plan = scheduler.on_setting_change(setting(0, 0, 0));
    assert_eq!(plan.cancels, vec![2]);
    assert_eq!(plan.spawns, vec![0]);
}
