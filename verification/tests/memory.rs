use monkeyos::mmap::{backing_area_type, mmap_alloc_result, mmap_plan, MmapBacking, MmapPlan, MmapRequest};
use monkeyos::page_fault::{
    elf_page_read_size, user_cow_int, FaultAction, FaultArea, PageTracker, TlsFaultTracker,
};
use monkeyos::task_mem::{
    alignup, elf_flags_to_mapping_flags, exit_notify_signal, fork_mapping_flags, get_elf_segment_for_addr, get_last_free_addr,
    mapping_flags_for, mmap_addr, push_arr_sp, push_num_sp, sbrk_finish, sbrk_plan, sys_brk,
    set_robust_list_check, should_cleanup_process, signal_dumps_core, sys_umask,
    validate_elf_segment_mapping, MappingFlags, MemError, MemRegion, MemType, SbrkPlan, MAP_AREA_START,
};
use monkeyos::user_areas::{
    batch_allocate_pages_for_area, find_fault_area, frame_alloc_plan, map_frames_area,
    run_page_vaddr, task_ilegal, user_cow_fault, AreaPages, FrameAllocPlan, IllegalAction,
    RunArea, SplitRuns,
};
use monkeyos::page_fault::{kernel_trap_action, KernelTrap, KernelTrapAction};
use monkeyos::user_areas::{pages_to_fill, user_buffer_pages};
use monkeyos::task_mem::{thread_clone_state, ThreadState};

use monkeyos::page_fault::{
    fault_first_try, fault_next_step, fault_try_alloc, FaultStep, FaultTry, TryOutcome,
};
use monkeyos::task_mem::{
    exec_drop_areas, exit_with_signal_record, fork_add_child, fork_child_record, process_exit,
    thread_exit_process, ProcessRecord,
};
fn region(start: u64, len: u64, mtype: MemType, offset: u64, has_file: bool) -> MemRegion {
    MemRegion { start, len, mtype, offset, has_file }
}

#[test]
fn heap_growth() {
    assert_eq!(alignup(5000, 4096), 8192);
    assert_eq!(alignup(0, 4096), 0);
    assert_eq!(alignup(4096, 4096), 4096);
    assert_eq!(
        sbrk_plan(0x1000_0000, 0x1000_2001),
        SbrkPlan::Alloc {
            start: 0x1000_0000,
            pages: 3,
            mtype: MemType::Mmap,
            flags: MappingFlags { user: true, read: true, write: true, execute: true },
        }
    );
    assert_eq!(sbrk_plan(0x1000_0800, 0x1000_0fff), SbrkPlan::NoAlloc);
    let mut heap = 0x1000_0000u64;
    assert_eq!(sys_brk(&mut heap, 0, true), 0x1000_0000);
    assert_eq!(heap, 0x1000_0000);
    assert_eq!(sbrk_finish(&mut heap, 0x1000_3000, false), 0x1000_0000);
    assert_eq!(heap, 0x1000_0000);
    assert_eq!(sbrk_finish(&mut heap, 0x1000_3000, true), 0x1000_3000);
    assert_eq!(heap, 0x1000_3000);
    assert_eq!(sys_brk(&mut heap, 0x1000_4000, true), 0x1000_4000);
    assert_eq!(sbrk_finish(&mut heap, 0, true), 0);
    assert_eq!(heap, 0);
}

#[test]
fn first_free_address_skips_the_stack() {
    let areas = [
        region(0x7000_0000, 0x1000_0000, MemType::Stack, 0, false),
        region(0x2_0000_0000, 0x3000, MemType::Mmap, 0, false),
    ];
    assert_eq!(get_last_free_addr(&areas, &[]), 0x2_0000_3000);
    assert_eq!(get_last_free_addr(&areas, &[(0x3_0000_0000, 0x1000)]), 0x3_0000_1000);
    assert_eq!(get_last_free_addr(&[], &[]), 0);
    assert_eq!(mmap_addr(0, 0x1000), MAP_AREA_START);
    assert_eq!(mmap_addr(0, 0x3_0000_0000), 0x3_0000_0000);
    assert_eq!(mmap_addr(0x5000, 0x3_0000_0000), 0x5000);
}

#[test]
fn mmap_decisions() {
    let anon = MmapRequest { start: 0, len: 5000, fd: u64::MAX, shared: false, fixed: false, anonymous: true };
    assert_eq!(
        mmap_plan(&anon, 0x1000, false, false, true),
        Ok(MmapPlan::MapPages {
            addr: 0x2_0000_0000,
            len: 8192,
            pages: 2,
            backing: MmapBacking::PrivateAnonymous,
            unmap_first: false
        })
    );
    let empty = MmapRequest { len: 0, ..anon };
    assert_eq!(mmap_plan(&empty, 0x3_0000_0000, false, false, true), Ok(MmapPlan::Empty { addr: 0x3_0000_0000 }));
    assert_eq!(mmap_plan(&anon, 0x1000, false, true, true), Err(MemError::EINVAL));
    let fixed = MmapRequest { start: 0x4000_0000, fixed: true, ..anon };
    assert!(matches!(
        mmap_plan(&fixed, 0, false, true, true),
        Ok(MmapPlan::MapPages { addr: 0x4000_0000, unmap_first: true, .. })
    ));
    let high = MmapRequest { start: 0x7F_FFFF_F000, len: 0x2000, ..anon };
    assert_eq!(mmap_plan(&high, 0, false, false, true), Err(MemError::ENOMEM));
    assert!(matches!(mmap_plan(&high, 0, false, false, false), Ok(MmapPlan::MapPages { .. })));
    assert_eq!(mmap_alloc_result(0x4000_0000, true), Ok(0x4000_0000));
    assert_eq!(mmap_alloc_result(0x4000_0000, false), Err(MemError::ENOMEM));
    let file = MmapRequest { fd: 3, anonymous: false, shared: true, ..anon };
    assert!(matches!(
        mmap_plan(&file, 0, true, false, true),
        Ok(MmapPlan::MapPages { backing: MmapBacking::SharedFile, .. })
    ));
    assert!(matches!(
        mmap_plan(&file, 0, false, false, true),
        Ok(MmapPlan::MapPages { backing: MmapBacking::SharedAnonymous, .. })
    ));
    let private_file = MmapRequest { shared: false, ..file };
    assert!(matches!(
        mmap_plan(&private_file, 0, true, false, true),
        Ok(MmapPlan::MapPages { backing: MmapBacking::PrivateFile, .. })
    ));
    assert_eq!(backing_area_type(MmapBacking::SharedFile), MemType::ShareFile);
    assert_eq!(backing_area_type(MmapBacking::SharedAnonymous), MemType::Shared);
    assert_eq!(backing_area_type(MmapBacking::PrivateAnonymous), MemType::Mmap);
}

#[test]
fn robust_list_and_signals() {
    assert_eq!(set_robust_list_check(0, 24, false), Ok(()));
    assert_eq!(set_robust_list_check(0, 16, true), Err(MemError::EINVAL));
    assert_eq!(set_robust_list_check(0x8000_0000_0000_0000, 24, true), Err(MemError::EFAULT));
    assert_eq!(set_robust_list_check(0x1000, 24, false), Err(MemError::EFAULT));
    assert_eq!(set_robust_list_check(0x1000, 24, true), Ok(()));
    assert!(signal_dumps_core(11));
    assert!(signal_dumps_core(3));
    assert!(!signal_dumps_core(9));
    assert!(signal_dumps_core(7));
    assert!(!signal_dumps_core(10));
    assert!(should_cleanup_process(5, 5, 0));
    assert!(!should_cleanup_process(5, 5, 1));
    assert!(!should_cleanup_process(6, 5, 0));
}

#[test]
fn stack_pushes_and_umask() {
    assert_eq!(push_arr_sp(0x1000, 5), 0xFF8);
    assert_eq!(push_arr_sp(0x1000, 8), 0xFF0);
    assert_eq!(push_num_sp(0x1000), 0xFF8);
    let mut mask = 0o22u64;
    assert_eq!(sys_umask(&mut mask, 0o7777), 0o22);
    assert_eq!(mask, 0o777);
}

#[test]
fn elf_segments_and_areas() {
    let file_area = [region(0x11000, 0x1000, MemType::CodeSection, 0x3000, true)];
    assert!(validate_elf_segment_mapping(&[(0x1000, 0x500)], 0x10000, &file_area).is_ok());
    assert_eq!(
        validate_elf_segment_mapping(&[(0x1000, 0x1500)], 0x10000, &file_area),
        Err("Missing ELF segment mapping")
    );
    let anon_area = [region(0x11000, 0x1000, MemType::CodeSection, 0, false)];
    assert!(validate_elf_segment_mapping(&[(0x1000, 0x500)], 0x10000, &anon_area).is_err());
    assert_eq!(get_elf_segment_for_addr(&file_area, 0x11234), Some((0, 0x3000, 0x1000)));
    assert_eq!(get_elf_segment_for_addr(&file_area, 0x12000), None);
    let f = elf_flags_to_mapping_flags(false, true, false);
    assert!(f.user && f.read && f.write && !f.execute);
    assert!(!mapping_flags_for(MemType::ShareFile).execute);
    assert!(mapping_flags_for(MemType::Stack).execute);
}

#[test]
fn faults_outside_any_area() {
    assert_eq!(user_cow_int(0x7000_1000, None, 100, false), FaultAction::GrowStack);
    assert_eq!(user_cow_int(0x10, None, 100, false), FaultAction::NullFirst);
    assert_eq!(user_cow_int(0x10, None, 100, true), FaultAction::NullRepeat);
    assert_eq!(user_cow_int(0x2_0000, None, 100, false), FaultAction::LoadElfPage);
    assert_eq!(user_cow_int(0x150_0000, None, 100, false), FaultAction::GrowHeap);
    assert_eq!(user_cow_int(0x2_0000_1000, None, 100, false), FaultAction::TlsPage);
    assert_eq!(user_cow_int(0x2100_0000, None, 100, false), FaultAction::GapRegion);
    assert_eq!(user_cow_int(0x9000_0000, None, 100, false), FaultAction::Segv);
}

#[test]
fn faults_inside_an_area() {
    let shared_page = FaultArea {
        mtype: MemType::Mmap,
        start: 0x2_0000_0000,
        offset: 0,
        has_file: false,
        tracker: PageTracker::Present { holders: 2 },
    };
    assert_eq!(
        user_cow_int(0x2_0000_1234, Some(shared_page), 100, false),
        FaultAction::CopyThenMap { executable: false }
    );
    let own = FaultArea { tracker: PageTracker::Present { holders: 1 }, ..shared_page };
    assert_eq!(user_cow_int(0x2_0000_1234, Some(own), 100, false), FaultAction::MapExisting { executable: false });
    let shm = FaultArea { mtype: MemType::Shared, ..shared_page };
    assert_eq!(user_cow_int(0x2_0000_1234, Some(shm), 100, false), FaultAction::MapExisting { executable: true });
    let missing = FaultArea {
        mtype: MemType::CodeSection,
        start: 0x1_0000,
        offset: 0x100,
        has_file: true,
        tracker: PageTracker::Missing,
    };
    assert_eq!(user_cow_int(0x1_2345, Some(missing), 5, false), FaultAction::Segv);
    assert_eq!(
        user_cow_int(0x1_2345, Some(missing), 100, false),
        FaultAction::NewFrame { file_offset: 0x2100, read_file: true, executable: true }
    );
    assert_eq!(elf_page_read_size(0x1000, 0x1800), Some(0x800));
    assert_eq!(elf_page_read_size(0, 0x5000), Some(4096));
    assert_eq!(elf_page_read_size(0x5000, 0x5000), None);
}

#[test]
fn repeated_tls_faults_kill_the_task() {
    let mut t = TlsFaultTracker::new();
    assert!(!t.record(0x2_0000_0000));
    assert!(!t.record(0x2_0000_0000));
    assert!(!t.record(0x2_0000_0000));
    assert!(t.record(0x2_0000_0000));
    assert!(!t.record(0x2_0000_1000));
    assert_eq!(t.count, 1);
    t.reset();
    assert_eq!(t.count, 0);
}

fn task_areas() -> Vec<AreaPages> {
    vec![
        AreaPages { region: region(0x1000, 0x2000, MemType::Mmap, 0, false), pages: vec![(0x1000, 1), (0x2000, 3)] },
        AreaPages { region: region(0x10000, 0x3000, MemType::CodeSection, 0x200, true), pages: vec![] },
    ]
}

#[test]
fn fault_area_lookup() {
    let areas = task_areas();
    let fa = find_fault_area(&areas, 0x2010).unwrap();
    assert_eq!(fa.mtype, MemType::Mmap);
    assert_eq!(fa.start, 0x1000);
    assert_eq!(fa.tracker, PageTracker::Present { holders: 3 });
    assert_eq!(find_fault_area(&areas, 0x10010).unwrap().tracker, PageTracker::Missing);
    assert!(find_fault_area(&areas, 0x9000).is_none());
    assert_eq!(user_cow_fault(&areas, 0x2010, 100, false), FaultAction::CopyThenMap { executable: true });
    assert_eq!(
        user_cow_fault(&areas, 0x11010, 100, false),
        FaultAction::NewFrame { file_offset: 0x1200, read_file: true, executable: true }
    );
    assert_eq!(task_ilegal(&areas, 0x2000), IllegalAction::SkipInstruction);
    assert_eq!(task_ilegal(&areas, 0x2004), IllegalAction::Sigill);
    assert_eq!(task_ilegal(&areas, 0x9000), IllegalAction::Sigill);
}

#[test]
fn batch_page_allocation() {
    let areas = task_areas();
    let pages = batch_allocate_pages_for_area(&areas, 1, &[0x10010, 0x12fff, 0x10020], 100).unwrap();
    assert_eq!(pages.len(), 3);
    assert_eq!(pages[0].vaddr, 0x10000);
    assert_eq!(pages[0].file_offset, Some(0x200));
    assert_eq!(pages[1].vaddr, 0x12000);
    assert_eq!(pages[1].file_offset, Some(0x2200));
    assert!(pages[1].flags.execute);
    // pages the area already holds are skipped
    let pages = batch_allocate_pages_for_area(&areas, 0, &[0x1004, 0x2ffc], 100).unwrap();
    assert_eq!(pages.len(), 0);
    assert!(batch_allocate_pages_for_area(&areas, 1, &[0x10010], 10).is_none());
    assert!(batch_allocate_pages_for_area(&areas, 5, &[0x10010], 100).is_none());
    assert!(batch_allocate_pages_for_area(&areas, 1, &[0x10010, 0x20000], 100).is_none());
    assert_eq!(batch_allocate_pages_for_area(&areas, 9, &[], 0).unwrap().len(), 0);
}

#[test]
fn frame_requests() {
    assert_eq!(frame_alloc_plan(MemType::Mmap, 4, true), FrameAllocPlan::Strict { attempts: 1, split: None });
    assert_eq!(
        frame_alloc_plan(MemType::Stack, 4, true),
        FrameAllocPlan::Strict { attempts: 1, split: Some(SplitRuns { first: 2, second: 2 }) }
    );
    assert_eq!(
        frame_alloc_plan(MemType::Stack, 5, true),
        FrameAllocPlan::Strict { attempts: 1, split: Some(SplitRuns { first: 3, second: 2 }) }
    );
    assert_eq!(frame_alloc_plan(MemType::Stack, 40, true), FrameAllocPlan::Strict { attempts: 2, split: None });
    assert_eq!(frame_alloc_plan(MemType::Stack, 4, false), FrameAllocPlan::Run);
    assert_eq!(frame_alloc_plan(MemType::Stack, 1, true), FrameAllocPlan::Run);
    assert_eq!(run_page_vaddr(0, 5), 0);
    assert_eq!(run_page_vaddr(0x1000, 2), 0x3000);
    let regions = [region(0x1000, 0x1000, MemType::Mmap, 0, false)];
    assert_eq!(
        map_frames_area(&regions, MemType::Stack, 0, 0, 0, false),
        RunArea::New(region(0x7000_0000, 0x1000_0000, MemType::Stack, 0, false))
    );
    let with_stack = [regions[0], region(0x7000_0000, 0x1000_0000, MemType::Stack, 0, false)];
    assert_eq!(map_frames_area(&with_stack, MemType::Stack, 0, 0, 0, false), RunArea::Extend(1));
    assert_eq!(
        map_frames_area(&with_stack, MemType::Mmap, 0x5000, 0x2000, 0x10, true),
        RunArea::New(region(0x5000, 0x2000, MemType::Mmap, 0x10, true))
    );
}

#[test]
fn fork_permissions_and_exit_signal() {
    assert!(fork_mapping_flags(MemType::Shared).write);
    assert!(fork_mapping_flags(MemType::ShareFile).write);
    assert!(!fork_mapping_flags(MemType::Mmap).write);
    assert!(!fork_mapping_flags(MemType::Stack).write);
    assert!(fork_mapping_flags(MemType::CodeSection).execute);
    assert_eq!(exit_notify_signal(0), 17);
    assert_eq!(exit_notify_signal(10), 10);
}

#[test]
fn forked_private_page_is_copied_on_write() {
    let shared_page = FaultArea {
        mtype: MemType::Mmap,
        start: 0x4000_0000,
        offset: 0,
        has_file: false,
        tracker: PageTracker::Present { holders: 2 },
    };
    assert!(matches!(
        user_cow_int(0x4000_0010, Some(shared_page), 100, false),
        FaultAction::CopyThenMap { .. }
    ));
    let shm = FaultArea { mtype: MemType::Shared, ..shared_page };
    assert!(matches!(
        user_cow_int(0x4000_0010, Some(shm), 100, false),
        FaultAction::MapExisting { .. }
    ));
}

#[test]
fn kernel_trap_dispatch() {
    let top: u64 = 0xffff_ffc0_0000_0000;
    assert_eq!(kernel_trap_action(KernelTrap::PageFault(0x1000), top, true), KernelTrapAction::UserPageFault(0x1000));
    assert_eq!(kernel_trap_action(KernelTrap::IllegalInstruction(0x1000), top, true), KernelTrapAction::IllegalInstruction);
    assert_eq!(kernel_trap_action(KernelTrap::IllegalInstruction(top + 4), top, false), KernelTrapAction::Ignore);
    assert_eq!(kernel_trap_action(KernelTrap::External, top, false), KernelTrapAction::ExternalInterrupt);
    assert_eq!(kernel_trap_action(KernelTrap::Other, top, false), KernelTrapAction::Ignore);
}

#[test]
fn user_buffers_spanning_pages() {
    assert_eq!(user_buffer_pages(0x1000, 0, 8), None);
    assert_eq!(user_buffer_pages(0x1ff8, 1, 8), Some((1, 1)));
    assert_eq!(user_buffer_pages(0x1ff8, 2, 8), Some((1, 2)));
    assert_eq!(user_buffer_pages(0x1000, 4096, 1), Some((1, 1)));
    assert_eq!(pages_to_fill(1, 1, &[false]), Vec::<u64>::new());
    assert_eq!(pages_to_fill(1, 3, &[true, false, false]), vec![0x2000, 0x3000]);
    assert_eq!(pages_to_fill(5, 6, &[true, true]), Vec::<u64>::new());
}

#[test]
fn cloned_thread_state() {
    let parent = ThreadState {
        sigmask: 0b1010,
        clear_child_tid: 0x1234,
        set_child_tid: 0x5678,
        exit_signal: 17,
        robust_list_head: 0x9000,
        robust_list_len: 24,
        ret: 99,
    };
    let child = thread_clone_state(&parent);
    assert_eq!(child.sigmask, 0b1010);
    assert_eq!(child.clear_child_tid, 0);
    assert_eq!(child.set_child_tid, 0);
    assert_eq!(child.exit_signal, 0);
    assert_eq!(child.robust_list_head, 0);
    assert_eq!(child.robust_list_len, 0);
    assert_eq!(child.ret, 0);
}

#[test]
fn page_fault_fallback_chains() {
    assert_eq!(fault_first_try(FaultAction::TlsPage), Some(FaultTry::TlsMapped));
    assert_eq!(fault_first_try(FaultAction::GapRegion), Some(FaultTry::ElfPage));
    assert_eq!(fault_first_try(FaultAction::Segv), None);
    assert_eq!(fault_next_step(FaultTry::TlsMapped, TryOutcome::Failed), FaultStep::Try(FaultTry::TlsShared));
    assert_eq!(fault_next_step(FaultTry::TlsShared, TryOutcome::Failed), FaultStep::Try(FaultTry::TlsStack));
    assert_eq!(fault_next_step(FaultTry::TlsStack, TryOutcome::Failed), FaultStep::Segv);
    assert_eq!(fault_next_step(FaultTry::ElfPage, TryOutcome::Failed), FaultStep::Try(FaultTry::BlankPage));
    assert_eq!(fault_next_step(FaultTry::ElfPage, TryOutcome::Abandoned), FaultStep::Finished);
    assert_eq!(fault_next_step(FaultTry::BlankPage, TryOutcome::Failed), FaultStep::Segv);
    assert_eq!(fault_next_step(FaultTry::StackPage, TryOutcome::Failed), FaultStep::Segv);
    assert_eq!(fault_next_step(FaultTry::HeapPages, TryOutcome::Done), FaultStep::Finished);
    assert_eq!(fault_try_alloc(FaultTry::HeapPages), (MemType::Mmap, 12));
    assert_eq!(fault_try_alloc(FaultTry::TlsShared), (MemType::Shared, 1));
}

#[test]
fn process_record_effects() {
    let record = || ProcessRecord {
        areas: vec![region(0x1000, 0x1000, MemType::Mmap, 0, false)],
        fds: vec![Some(1), None, Some(3)],
        children: vec![7],
        heap: 0x9000,
        exit_code: None,
        exit_signal: None,
        core_dumped: false,
    };
    let mut p = record();
    let child = fork_child_record(&p);
    assert_eq!(child.areas, p.areas);
    assert_eq!(child.fds, p.fds);
    assert!(child.children.is_empty() && child.heap == 0x9000 && child.exit_code.is_none());
    fork_add_child(&mut p, 8);
    assert_eq!(p.children, vec![7, 8]);
    assert_eq!(thread_exit_process(&mut p, 5, 4, 0, 3, 0), None);
    assert_eq!(p.exit_code, None);
    assert_eq!(process_exit(&mut p, 5, 4, 0, 3, 0), None);
    assert_eq!(p.exit_code, Some(3));
    assert_eq!(p.areas.len(), 1);
    assert_eq!(thread_exit_process(&mut p, 4, 4, 0, 9, 0), Some(17));
    assert!(p.areas.is_empty() && p.fds.is_empty() && p.children.is_empty());
    assert_eq!(p.exit_code, Some(9));
    let mut q = record();
    exit_with_signal_record(&mut q, 7);
    assert_eq!((q.exit_signal, q.exit_code, q.core_dumped), (Some(7), Some(0), true));
    assert_eq!(process_exit(&mut q, 4, 4, 0, 0, 10), Some(10));
    let mut e = record();
    exec_drop_areas(&mut e);
    assert!(e.areas.is_empty());
    assert_eq!(e.fds.len(), 3);
}
