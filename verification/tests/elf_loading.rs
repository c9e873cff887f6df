use monkeyos::elf_load::{
    cache_task_template, detect_libc_type, exec_retained_threads, find_task_template,
    plan_cache, plan_exec, read_elf_image, CacheOutcome, CachePlan, ElfError, ExecPlan,
    LibcType, LoadSegment, SegmentKind, TaskCacheTemplate,
};
use monkeyos::elf_load::{exec_load_result, exec_redirect, exec_segment_areas, plan_exec_image, ExecError};
use monkeyos::task_mem::{MappingFlags, MemRegion, MemType};

/// A program header: type, flags, file offset, virtual address, file size,
/// memory size.
struct Ph(u32, u32, u64, u64, u64, u64);

/// A little-endian 64-bit ELF image with the given entry point and program
/// headers (table right after the header), padded to `len` bytes.
fn elf64(entry: u64, phs: &[Ph], len: usize) -> Vec<u8> {
    let mut b = Vec::new();
    b.extend_from_slice(&[0x7f, b'E', b'L', b'F', 2, 1, 1, 0, 0, 0, 0, 0, 0, 0, 0, 0]);
    b.extend_from_slice(&2u16.to_le_bytes()); // type: executable
    b.extend_from_slice(&0x102u16.to_le_bytes()); // machine
    b.extend_from_slice(&1u32.to_le_bytes()); // version
    b.extend_from_slice(&entry.to_le_bytes());
    b.extend_from_slice(&64u64.to_le_bytes()); // program headers
    b.extend_from_slice(&0u64.to_le_bytes()); // section headers
    b.extend_from_slice(&0u32.to_le_bytes()); // flags
    b.extend_from_slice(&64u16.to_le_bytes()); // header size
    b.extend_from_slice(&56u16.to_le_bytes()); // program header size
    b.extend_from_slice(&(phs.len() as u16).to_le_bytes());
    b.extend_from_slice(&[0; 6]);
    for p in phs {
        b.extend_from_slice(&p.0.to_le_bytes());
        b.extend_from_slice(&p.1.to_le_bytes());
        b.extend_from_slice(&p.2.to_le_bytes());
        b.extend_from_slice(&p.3.to_le_bytes());
        b.extend_from_slice(&p.3.to_le_bytes());
        b.extend_from_slice(&p.4.to_le_bytes());
        b.extend_from_slice(&p.5.to_le_bytes());
        b.extend_from_slice(&0x1000u64.to_le_bytes());
    }
    if b.len() < len {
        b.resize(len, 0);
    }
    b
}

fn static_image() -> Vec<u8> {
    elf64(
        0x10078,
        &[Ph(1, 5, 0, 0x10000, 0x100, 0x100), Ph(1, 6, 0x100, 0x11100, 0x20, 0x1000)],
        0x120,
    )
}

fn dynamic_image(interp: &[u8]) -> Vec<u8> {
    let mut b = elf64(
        0x1000,
        &[Ph(3, 4, 176, 0, interp.len() as u64, interp.len() as u64), Ph(1, 5, 0, 0, 0x100, 0x100)],
        176,
    );
    b.extend_from_slice(interp);
    b.resize(0x200, 0);
    b
}

#[test]
fn headers_are_read_through_xmas_elf() {
    let img = read_elf_image(&static_image()).ok().unwrap();
    assert_eq!(img.header.entry, 0x10078);
    assert!(img.header.is64);
    assert_eq!(img.header.ph_count, 2);
    assert_eq!(img.header.ph_entry_size, 56);
    assert_eq!(img.segments.len(), 2);
    assert_eq!(img.segments[1].kind, SegmentKind::Load);
    assert_eq!(img.segments[1].vaddr, 0x11100);
    assert_eq!(img.segments[1].mem_size, 0x1000);
    assert_eq!(img.segments[1].flags, 6);
    assert_eq!(read_elf_image(b"#!/bin/sh\n").err(), Some(ElfError::NotElf));
    let mut cut = static_image();
    cut.truncate(64 + 56);
    assert_eq!(read_elf_image(&cut).err(), Some(ElfError::Malformed));
}

#[test]
fn static_image_is_placed() {
    let plan = match plan_exec(&static_image(), 0) {
        ExecPlan::Image(p) => p,
        _ => panic!("expected a static image"),
    };
    assert_eq!(plan.entry, 0x10078);
    assert_eq!(plan.heap_bottom, 0x13000);
    assert_eq!(plan.ph_count, 2);
    let rx = MappingFlags { user: true, read: true, write: false, execute: true };
    let rw = MappingFlags { user: true, read: true, write: true, execute: false };
    assert_eq!(
        plan.segments,
        vec![
            LoadSegment { vaddr: 0x10000, vpn: 0x10, page_count: 1, offset: 0, file_size: 0x100, mem_size: 0x100, flags: rx },
            LoadSegment { vaddr: 0x11100, vpn: 0x11, page_count: 2, offset: 0x100, file_size: 0x20, mem_size: 0x1000, flags: rw },
        ]
    );
    // a load base moves every segment
    let plan = match plan_exec(&static_image(), 0x4000_0000) {
        ExecPlan::Image(p) => p,
        _ => panic!("expected a static image"),
    };
    assert_eq!(plan.segments[0].vaddr, 0x4001_0000);
    assert_eq!(plan.segments[0].vpn, 0x40010);
    assert_eq!(plan.heap_bottom, 0x13000);
}

#[test]
fn dynamic_images_pick_the_loader() {
    assert!(matches!(plan_exec(&dynamic_image(b"/lib/ld-musl-riscv64.so.1\0"), 0), ExecPlan::Interpreter(LibcType::Musl)));
    assert!(matches!(plan_exec(&dynamic_image(b"/lib64/ld-linux-x86-64.so.2\0"), 0), ExecPlan::Interpreter(LibcType::Glibc)));
    assert!(matches!(plan_exec(&dynamic_image(b"/usr/lib/glibc/ld.so"), 0), ExecPlan::Interpreter(LibcType::Glibc)));
    assert!(matches!(plan_exec(&dynamic_image(b"/lib/other.so\0"), 0), ExecPlan::Interpreter(LibcType::Unknown)));
    assert_eq!(detect_libc_type(b"musl\0\0"), LibcType::Musl);
    assert_eq!(detect_libc_type(&[0xff, b'm', b'u', b's', b'l']), LibcType::Unknown);
    assert_eq!(detect_libc_type(b""), LibcType::Unknown);
}

#[test]
fn non_elf_and_broken_images() {
    assert!(matches!(plan_exec(b"echo hello\n", 0), ExecPlan::Shell));
    let mut cut = static_image();
    cut.truncate(64 + 56);
    assert!(matches!(plan_exec(&cut, 0), ExecPlan::Malformed));
    // no program headers at all
    let none = elf64(0x1000, &[], 64);
    assert!(matches!(plan_exec(&none, 0), ExecPlan::Malformed));
    // a segment of an invalid type
    let bad = elf64(0x1000, &[Ph(1, 5, 0, 0x10000, 0x10, 0x10), Ph(100, 0, 0, 0, 0, 0)], 0x200);
    assert!(matches!(plan_exec(&bad, 0), ExecPlan::Malformed));
    // file bytes past the end of the file
    let short = elf64(0x1000, &[Ph(1, 5, 0x1000, 0x10000, 0x10, 0x10)], 0x200);
    assert!(matches!(plan_exec(&short, 0), ExecPlan::Malformed));
}

#[test]
fn templates_are_cached_for_static_images() {
    assert!(matches!(plan_cache(&static_image(), 0), CachePlan::Template(_)));
    assert!(matches!(plan_cache(&dynamic_image(b"/lib/ld-musl.so\0"), 0), CachePlan::Refused));
    assert!(matches!(plan_cache(b"text", 0), CachePlan::NotElf));
    let t = match cache_task_template(b"/bin/app".to_vec(), &static_image(), 0, 0x10040) {
        CacheOutcome::Cached(t) => t,
        _ => panic!("expected a template"),
    };
    assert_eq!(t.name, b"/bin/app".to_vec());
    assert_eq!(t.entry, 0x10078);
    assert_eq!(t.heap_bottom, 0x13000);
    assert_eq!(t.ph_count, 2);
    assert_eq!(t.ph_entry_size, 56);
    assert_eq!(t.ph_addr, 0x10040);
    assert_eq!(
        t.maps,
        vec![
            MemRegion { start: 0x10000, len: 0x1000, mtype: MemType::CodeSection, offset: 0, has_file: false },
            MemRegion { start: 0x11000, len: 0x2000, mtype: MemType::CodeSection, offset: 0, has_file: false },
        ]
    );
    let other = TaskCacheTemplate {
        name: b"/bin/other".to_vec(),
        entry: 0,
        maps: vec![],
        base: 0,
        heap_bottom: 0,
        ph_count: 0,
        ph_entry_size: 0,
        ph_addr: 0,
    };
    let caches = vec![other, t];
    assert_eq!(find_task_template(&caches, b"/bin/app"), Some(1));
    assert_eq!(find_task_template(&caches, b"/bin/none"), None);
    assert!(matches!(cache_task_template(b"/x".to_vec(), b"#!", 0, 0), CacheOutcome::NotElf));
}

#[test]
fn exec_keeps_only_the_calling_thread() {
    assert_eq!(exec_retained_threads(&[Some(3), None, Some(7), Some(3)], 3), vec![0, 3]);
    assert_eq!(exec_retained_threads(&[Some(1)], 3), Vec::<usize>::new());
}

#[test]
fn images_at_any_address_are_read() {
    let img = static_image();
    for shift in 1..8 {
        let mut buf = vec![0u8; shift];
        buf.extend_from_slice(&img);
        let at = &buf[shift..];
        let parsed = read_elf_image(at).ok().unwrap();
        assert_eq!(parsed.header.entry, 0x10078);
        assert_eq!(parsed.segments.len(), 2);
        assert!(matches!(plan_exec(at, 0), ExecPlan::Image(_)));
    }
}

#[test]
fn exec_decides_on_a_parsed_image() {
    let img = static_image();
    let parsed = read_elf_image(&img).ok().unwrap();
    let plan = match plan_exec_image(&parsed, &img, 0) {
        ExecPlan::Image(p) => p,
        _ => panic!("static image not placed"),
    };
    assert_eq!(plan.entry, 0x10078);
    let areas = exec_segment_areas(&plan);
    assert_eq!(areas.len(), 2);
    assert_eq!((areas[0].start, areas[0].len, areas[0].has_file), (0x10000, 0x100, true));
    assert_eq!((areas[1].start, areas[1].len, areas[1].offset), (0x11100, 0x1000, 0x100));
    assert_eq!(exec_load_result(Ok(())), Ok(()));
    assert_eq!(exec_load_result(Err("Missing ELF segment mapping")), Err(ExecError::ENOEXEC));
    let dynamic = dynamic_image(b"/lib/ld-musl-riscv64.so.1\0");
    let parsed = read_elf_image(&dynamic).ok().unwrap();
    assert!(matches!(plan_exec_image(&parsed, &dynamic, 0), ExecPlan::Interpreter(LibcType::Musl)));
}

#[test]
fn exec_falls_back_to_the_shell_or_the_loader() {
    let args = vec![b"prog".to_vec(), b"-x".to_vec()];
    let musl = b"/lib/ld-musl.so.1".to_vec();
    let glibc = b"/lib/ld-linux.so".to_vec();
    let dyn_loader = b"/lib/ld.so".to_vec();
    let (p, a) = exec_redirect(&ExecPlan::Shell, &args, &musl, &glibc, &dyn_loader).unwrap();
    assert_eq!(p, b"busybox".to_vec());
    assert_eq!(a, vec![b"busybox".to_vec(), b"sh".to_vec(), b"prog".to_vec(), b"-x".to_vec()]);
    let (p, a) =
        exec_redirect(&ExecPlan::Interpreter(LibcType::Glibc), &args, &musl, &glibc, &dyn_loader).unwrap();
    assert_eq!(p, glibc);
    assert_eq!(a, vec![glibc.clone(), b"prog".to_vec(), b"-x".to_vec()]);
    let (p, _) =
        exec_redirect(&ExecPlan::Interpreter(LibcType::Unknown), &args, &musl, &glibc, &dyn_loader).unwrap();
    assert_eq!(p, dyn_loader);
    assert!(exec_redirect(&ExecPlan::Malformed, &args, &musl, &glibc, &dyn_loader).is_none());
}

#[test]
fn short_or_foreign_files_are_not_elf() {
    assert!(matches!(plan_exec(b"#!", 0), ExecPlan::Shell));
    assert!(matches!(plan_exec(b"#!/bin/sh\necho hi\n", 0), ExecPlan::Shell));
    let mut img = static_image();
    img[4] = 3;
    assert!(matches!(plan_exec(&img, 0), ExecPlan::Shell));
    let img = static_image();
    assert!(matches!(plan_exec(&img[..63], 0), ExecPlan::Shell));
}
