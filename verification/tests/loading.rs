use batch_os::batch::{AppManagerInner, LoadError};
use batch_os::config::{APP_BASE_ADDRESS, APP_SIZE_LIMIT};
use batch_os::image::ImageRegion;
use batch_os::stack::ExecutionStacks;
use batch_os::trap::{TrapContext, TRAP_CONTEXT_SIZE};
use batch_os::window::ExecutionWindow;

const KERNEL_BASE: usize = 0x8020_0000;
const USER_BASE: usize = 0x8020_2000;

fn two_app_blob() -> Vec<u8> {
    let mut blob = Vec::new();
    for i in 0..0x100usize {
        blob.push(0xa0 | (i % 16) as u8);
    }
    for i in 0..0x200usize {
        blob.push(0x10 + (i % 7) as u8);
    }
    blob
}

#[test]
fn two_apps_load_one_after_the_other() {
    let manager = AppManagerInner::new(&[2, 0x1000, 0x1100, 0x1300]).unwrap();
    let blob = two_app_blob();
    let image = ImageRegion::new(0x1000, &blob).unwrap();
    let mut window = ExecutionWindow::new();

    assert_eq!(manager.load_app(0, &image, &mut window), Ok(()));
    assert_eq!(window.as_slice().len(), 0x20000);
    assert_eq!(&window.as_slice()[..0x100], &blob[..0x100]);
    assert_eq!(window.as_slice()[0x100..].len(), 0x1ff00);
    assert!(window.as_slice()[0x100..].iter().all(|b| *b == 0));

    assert_eq!(manager.load_app(1, &image, &mut window), Ok(()));
    assert_eq!(&window.as_slice()[..0x200], &blob[0x100..0x300]);
    assert_eq!(window.as_slice()[0x200..].len(), 0x1fe00);
    assert!(window.as_slice()[0x200..].iter().all(|b| *b == 0));
}

#[test]
fn shorter_app_leaves_nothing_of_a_longer_one() {
    let manager = AppManagerInner::new(&[2, 0, 0x200, 0x240]).unwrap();
    let blob = vec![0xeeu8; 0x240];
    let image = ImageRegion::new(0, &blob).unwrap();
    let mut window = ExecutionWindow::new();
    manager.load_app(0, &image, &mut window).unwrap();
    assert!(window.as_slice()[..0x200].iter().all(|b| *b == 0xee));
    manager.load_app(1, &image, &mut window).unwrap();
    assert!(window.as_slice()[..0x40].iter().all(|b| *b == 0xee));
    assert!(window.as_slice()[0x40..].iter().all(|b| *b == 0));
}

#[test]
fn boundaries_are_addresses_in_the_image_region() {
    // The same table against a region that starts at address zero: the
    // images are then found 0x1000 bytes into the region.
    let manager = AppManagerInner::new(&[2, 0x1000, 0x1100, 0x1300]).unwrap();
    let mut blob = vec![0x55u8; 0x1000];
    blob.extend_from_slice(&two_app_blob());
    let image = ImageRegion::new(0, &blob).unwrap();
    let mut window = ExecutionWindow::new();
    manager.load_app(1, &image, &mut window).unwrap();
    assert_eq!(&window.as_slice()[..0x200], &blob[0x1100..0x1300]);
    assert!(window.as_slice()[0x200..].iter().all(|b| *b == 0));
}

#[test]
fn every_app_of_a_table_loads_as_image_then_zeros() {
    let table = [4usize, 0x40, 0x41, 0x41, 0x100, 0x1000];
    let manager = AppManagerInner::new(&table).unwrap();
    let blob: Vec<u8> = (0..0x1000usize).map(|i| (i * 31 % 251 + 1) as u8).collect();
    let image = ImageRegion::new(0, &blob).unwrap();
    let mut window = ExecutionWindow::new();
    for id in 0..4 {
        let (start, end) = manager.app_range(id).unwrap();
        assert_eq!(manager.load_app(id, &image, &mut window), Ok(()));
        let len = end - start;
        assert_eq!(&window.as_slice()[..len], &blob[start..end]);
        assert!(window.as_slice()[len..].iter().all(|b| *b == 0));
        assert_eq!(window.as_slice().len(), APP_SIZE_LIMIT);
    }
}

#[test]
fn load_past_the_last_app_keeps_the_window() {
    let manager = AppManagerInner::new(&[2, 0x1000, 0x1100, 0x1300]).unwrap();
    let blob = two_app_blob();
    let image = ImageRegion::new(0x1000, &blob).unwrap();
    let mut window = ExecutionWindow::new();
    manager.load_app(1, &image, &mut window).unwrap();
    let before = window.as_slice().to_vec();
    assert_eq!(manager.load_app(2, &image, &mut window), Err(LoadError::AllAppsCompleted));
    assert_eq!(window.as_slice(), &before[..]);
    assert_eq!(manager.load_app(usize::MAX, &image, &mut window), Err(LoadError::AllAppsCompleted));
    assert_eq!(window.as_slice(), &before[..]);
}

#[test]
fn image_of_exactly_the_window_size_loads() {
    let manager = AppManagerInner::new(&[1, 0x10, 0x10 + APP_SIZE_LIMIT]).unwrap();
    let blob = vec![0x3cu8; APP_SIZE_LIMIT];
    let image = ImageRegion::new(0x10, &blob).unwrap();
    let mut window = ExecutionWindow::new();
    assert_eq!(manager.load_app(0, &image, &mut window), Ok(()));
    assert!(window.as_slice().iter().all(|b| *b == 0x3c));
}

#[test]
fn image_above_the_window_size_is_refused() {
    let manager = AppManagerInner::new(&[2, 0, 4, 5 + APP_SIZE_LIMIT]).unwrap();
    let blob = vec![0x3cu8; APP_SIZE_LIMIT + 5];
    let image = ImageRegion::new(0, &blob).unwrap();
    let mut window = ExecutionWindow::new();
    manager.load_app(0, &image, &mut window).unwrap();
    let before = window.as_slice().to_vec();
    assert_eq!(manager.load_app(1, &image, &mut window), Err(LoadError::ImageTooLarge));
    assert_eq!(window.as_slice(), &before[..]);
}

#[test]
fn image_outside_the_region_is_refused() {
    let manager = AppManagerInner::new(&[2, 0x1000, 0x1100, 0x1300]).unwrap();
    let blob = two_app_blob();
    let mut window = ExecutionWindow::new();

    // The region ends before the second image does.
    let short = ImageRegion::new(0x1000, &blob[..0x2ff]).unwrap();
    assert_eq!(manager.load_app(0, &short, &mut window), Ok(()));
    let before = window.as_slice().to_vec();
    assert_eq!(manager.load_app(1, &short, &mut window), Err(LoadError::ImageOutOfRange));
    assert_eq!(window.as_slice(), &before[..]);

    // The region starts behind the first image.
    let late = ImageRegion::new(0x1001, &blob).unwrap();
    assert_eq!(manager.load_app(0, &late, &mut window), Err(LoadError::ImageOutOfRange));
    assert_eq!(manager.load_app(1, &late, &mut window), Ok(()));
}

#[test]
fn too_large_is_reported_before_out_of_range() {
    let manager = AppManagerInner::new(&[1, 0, APP_SIZE_LIMIT + 1]).unwrap();
    let image = ImageRegion::new(0, &[]).unwrap();
    let mut window = ExecutionWindow::new();
    assert_eq!(manager.load_app(0, &image, &mut window), Err(LoadError::ImageTooLarge));
}

#[test]
fn no_apps_first_run_is_completion() {
    let mut manager = AppManagerInner::new(&[0, 0x1000]).unwrap();
    let image = ImageRegion::new(0x1000, &[]).unwrap();
    let mut window = ExecutionWindow::new();
    let mut stacks = ExecutionStacks::new(KERNEL_BASE, USER_BASE).unwrap();
    assert_eq!(
        manager.run_next_app(&image, &mut window, &mut stacks),
        Err(LoadError::AllAppsCompleted)
    );
    assert_eq!(manager.get_current_app(), 0);
    assert!(window.as_slice().iter().all(|b| *b == 0));
    assert!(stacks.kernel().as_slice().iter().all(|b| *b == 0));
}

#[test]
fn runs_advance_by_one_and_stop_at_the_end() {
    let mut manager = AppManagerInner::new(&[3, 0, 0x10, 0x30, 0x60]).unwrap();
    let blob: Vec<u8> = (0..0x60u8).map(|i| i + 1).collect();
    let image = ImageRegion::new(0, &blob).unwrap();
    let mut window = ExecutionWindow::new();
    let mut stacks = ExecutionStacks::new(KERNEL_BASE, USER_BASE).unwrap();
    let mut seen = Vec::new();
    for round in 0..3usize {
        assert_eq!(manager.get_current_app(), round);
        seen.push(manager.get_current_app());
        let (start, end) = manager.app_range(round).unwrap();
        let entered = manager.run_next_app(&image, &mut window, &mut stacks);
        assert_eq!(entered, Ok(KERNEL_BASE + 0x2000 - TRAP_CONTEXT_SIZE));
        assert_eq!(manager.get_current_app(), round + 1);
        assert_eq!(&window.as_slice()[..end - start], &blob[start..end]);
        assert!(window.as_slice()[end - start..].iter().all(|b| *b == 0));
    }
    assert_eq!(seen, vec![0, 1, 2]);
    let last_window = window.as_slice().to_vec();
    let last_stack = stacks.kernel().as_slice().to_vec();
    for _ in 0..2 {
        assert_eq!(
            manager.run_next_app(&image, &mut window, &mut stacks),
            Err(LoadError::AllAppsCompleted)
        );
        assert_eq!(manager.get_current_app(), 3);
        assert_eq!(window.as_slice(), &last_window[..]);
        assert_eq!(stacks.kernel().as_slice(), &last_stack[..]);
    }
}

#[test]
fn run_stages_the_entry_context() {
    let mut manager = AppManagerInner::new(&[1, 0x1000, 0x1100]).unwrap();
    let blob = two_app_blob();
    let image = ImageRegion::new(0x1000, &blob).unwrap();
    let mut window = ExecutionWindow::new();
    let mut stacks = ExecutionStacks::new(KERNEL_BASE, USER_BASE).unwrap();
    let cx_addr = manager.run_next_app(&image, &mut window, &mut stacks).unwrap();
    assert_eq!(cx_addr, stacks.kernel().get_sp() - TRAP_CONTEXT_SIZE);
    let staged = stacks.kernel().context_at(cx_addr).unwrap();
    assert_eq!(staged.sepc, APP_BASE_ADDRESS as u64);
    assert_eq!(staged.sepc, 0x80040000);
    assert_eq!(staged.sp(), (USER_BASE + 0x2000) as u64);
    assert_eq!(staged.sstatus, 0);
    assert_eq!(staged, TrapContext::app_init_context(APP_BASE_ADDRESS, stacks.user().get_sp()));
    // Below the record the stack is untouched.
    assert!(stacks.kernel().as_slice()[..0x2000 - TRAP_CONTEXT_SIZE].iter().all(|b| *b == 0));
}

#[test]
fn failed_run_changes_nothing() {
    let mut manager = AppManagerInner::new(&[2, 0, 0x10, 0x10 + APP_SIZE_LIMIT + 1]).unwrap();
    let blob = vec![9u8; 0x20];
    let image = ImageRegion::new(0, &blob).unwrap();
    let mut window = ExecutionWindow::new();
    let mut stacks = ExecutionStacks::new(KERNEL_BASE, USER_BASE).unwrap();
    manager.run_next_app(&image, &mut window, &mut stacks).unwrap();
    let window_before = window.as_slice().to_vec();
    let stack_before = stacks.kernel().as_slice().to_vec();
    assert_eq!(
        manager.run_next_app(&image, &mut window, &mut stacks),
        Err(LoadError::ImageTooLarge)
    );
    assert_eq!(manager.get_current_app(), 1);
    assert_eq!(window.as_slice(), &window_before[..]);
    assert_eq!(stacks.kernel().as_slice(), &stack_before[..]);
}

#[test]
fn table_text_does_not_change_with_progress() {
    let mut manager = AppManagerInner::new(&[2, 0x1000, 0x1100, 0x1300]).unwrap();
    let blob = two_app_blob();
    let image = ImageRegion::new(0x1000, &blob).unwrap();
    let mut window = ExecutionWindow::new();
    let mut stacks = ExecutionStacks::new(KERNEL_BASE, USER_BASE).unwrap();
    let before = manager.print_app_info();
    manager.run_next_app(&image, &mut window, &mut stacks).unwrap();
    assert_eq!(manager.print_app_info(), before);
    manager.run_next_app(&image, &mut window, &mut stacks).unwrap();
    assert_eq!(manager.print_app_info(), before);
}
