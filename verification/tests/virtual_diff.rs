use github_activity::popover_menu::{Offset, PickerPopoverMenu};
use github_activity::virtual_diff::{
    diff_excerpt_ranges, insert_diff_excerpts, split_if_needed, DiffViewStyle, DiskState, Point,
    VirtualDiffFile,
};

#[test]
fn test_virtual_diff_file_reports_filename_and_path() {
    let file = VirtualDiffFile::new(
        "app/Console/Commands/CreateFeatureFlagCommand.php".to_string(),
        "CreateFeatureFlagCommand.php".to_string(),
        7,
        false,
        false,
    );

    assert_eq!(file.file_name(), "CreateFeatureFlagCommand.php");
    assert_eq!(file.path(), "app/Console/Commands/CreateFeatureFlagCommand.php");
    assert_eq!(
        file.full_path(),
        "app/Console/Commands/CreateFeatureFlagCommand.php"
    );
    assert_eq!(file.worktree_id(), 7);
    assert_eq!(
        file.disk_state(),
        DiskState::Historic { was_deleted: false }
    );
    assert!(file.can_open());
    assert!(!file.is_private());
}

#[test]
fn test_virtual_diff_binary_file_cannot_open() {
    let file = VirtualDiffFile::new(
        "assets/image.png".to_string(),
        "image.png".to_string(),
        1,
        false,
        true,
    );

    assert!(!file.can_open());
}

#[test]
fn unchanged_buffers_are_shown_whole_or_not_at_all() {
    let end = Point { row: 9, column: 4 };
    let start = Point { row: 0, column: 0 };
    assert_eq!(diff_excerpt_ranges(Vec::new(), true, end), vec![start..end]);
    assert_eq!(diff_excerpt_ranges(Vec::new(), false, end), Vec::new());
    let hunk = Point { row: 1, column: 0 }..Point { row: 2, column: 0 };
    assert_eq!(diff_excerpt_ranges(vec![hunk.clone()], true, end), vec![hunk]);
}

#[test]
fn only_the_first_batch_splits_the_editor() {
    assert!(split_if_needed(DiffViewStyle::Split));
    assert!(!split_if_needed(DiffViewStyle::Unified));
    assert!(insert_diff_excerpts(true, true, true, DiffViewStyle::Split));
    assert!(!insert_diff_excerpts(true, true, true, DiffViewStyle::Unified));
    assert!(!insert_diff_excerpts(false, true, true, DiffViewStyle::Split));
    assert!(!insert_diff_excerpts(true, false, true, DiffViewStyle::Split));
    assert!(!insert_diff_excerpts(true, true, false, DiffViewStyle::Split));
}

#[test]
fn popover_menus_are_built_step_by_step() {
    let menu: PickerPopoverMenu<u8, u8, u8, u8, u8, u8> = PickerPopoverMenu::new(1, 2, 3, 4);
    assert_eq!(menu.offset, Some(Offset { x: 0, y: -2 }));
    assert_eq!(menu.handle, None);
    let menu = menu.with_handle(5).offset(Offset { x: 1, y: 1 }).on_open(6);
    assert_eq!(menu.handle, Some(5));
    assert_eq!(menu.offset, Some(Offset { x: 1, y: 1 }));
    assert_eq!(menu.on_open, Some(6));
    assert_eq!(menu.picker, 1);
}
