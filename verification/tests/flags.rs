use linux_raw_sys::general as linux;
use starry_mm::backend::vm_flags::{
    AtomicVmFlags, VmFlags, VM_ALL, VM_DONTCOPY, VM_LOCKED, VM_SHARED,
};
use starry_mm::flags::{
    MappingFlags, MmapFlags, MmapProt, MAPPING_EXECUTE, MAPPING_READ, MAPPING_USER, MAPPING_WRITE,
    MAP_ALL, MAP_ANONYMOUS, MAP_DENYWRITE, MAP_FIXED, MAP_FIXED_NOREPLACE, MAP_HUGETLB,
    MAP_HUGETLB_1GB, MAP_NORESERVE, MAP_POPULATE, MAP_PRIVATE, MAP_SHARED, MAP_SHARED_VALIDATE,
    MAP_STACK, MAP_TYPE, PROT_ALL, PROT_EXEC, PROT_GROWSDOWN, PROT_GROWSUP, PROT_READ, PROT_WRITE,
};

#[test]
fn constants_are_those_of_linux() {
    assert_eq!(PROT_READ, linux::PROT_READ);
    assert_eq!(PROT_WRITE, linux::PROT_WRITE);
    assert_eq!(PROT_EXEC, linux::PROT_EXEC);
    assert_eq!(PROT_GROWSDOWN, linux::PROT_GROWSDOWN);
    assert_eq!(PROT_GROWSUP, linux::PROT_GROWSUP);
    assert_eq!(
        PROT_ALL,
        linux::PROT_READ
            | linux::PROT_WRITE
            | linux::PROT_EXEC
            | linux::PROT_GROWSDOWN
            | linux::PROT_GROWSUP
    );
    assert_eq!(MAP_SHARED, linux::MAP_SHARED);
    assert_eq!(MAP_PRIVATE, linux::MAP_PRIVATE);
    assert_eq!(MAP_SHARED_VALIDATE, linux::MAP_SHARED_VALIDATE);
    assert_eq!(MAP_TYPE, linux::MAP_TYPE);
    assert_eq!(MAP_FIXED, linux::MAP_FIXED);
    assert_eq!(MAP_ANONYMOUS, linux::MAP_ANONYMOUS);
    assert_eq!(MAP_DENYWRITE, linux::MAP_DENYWRITE);
    assert_eq!(MAP_NORESERVE, linux::MAP_NORESERVE);
    assert_eq!(MAP_POPULATE, linux::MAP_POPULATE);
    assert_eq!(MAP_STACK, linux::MAP_STACK);
    assert_eq!(MAP_HUGETLB, linux::MAP_HUGETLB);
    assert_eq!(MAP_FIXED_NOREPLACE, linux::MAP_FIXED_NOREPLACE);
    assert_eq!(MAP_HUGETLB_1GB, linux::MAP_HUGETLB | linux::MAP_HUGE_1GB);
    assert_eq!(
        MAP_ALL,
        linux::MAP_SHARED
            | linux::MAP_PRIVATE
            | linux::MAP_SHARED_VALIDATE
            | linux::MAP_TYPE
            | linux::MAP_FIXED
            | linux::MAP_FIXED_NOREPLACE
            | linux::MAP_ANONYMOUS
            | linux::MAP_POPULATE
            | linux::MAP_NORESERVE
            | linux::MAP_STACK
            | linux::MAP_HUGETLB
            | linux::MAP_HUGE_1GB
            | linux::MAP_DENYWRITE
    );
}

#[test]
fn protections_become_permissions() {
    let none = MappingFlags::from(MmapProt { bits: 0 });
    assert_eq!(none.bits, MAPPING_USER);
    let rw = MappingFlags::from(MmapProt { bits: PROT_READ | PROT_WRITE });
    assert_eq!(rw.bits, MAPPING_USER | MAPPING_READ | MAPPING_WRITE);
    let x = MappingFlags::from(MmapProt { bits: PROT_EXEC | PROT_GROWSDOWN });
    assert_eq!(x.bits, MAPPING_USER | MAPPING_EXECUTE);
    assert!(rw.writable());
    assert!(!x.writable());
    assert!(rw.contains(MappingFlags { bits: MAPPING_READ }));
    assert!(!rw.contains(MappingFlags { bits: MAPPING_READ | MAPPING_EXECUTE }));
}

#[test]
fn read_only_takes_writing_away_only() {
    let all = MappingFlags { bits: MAPPING_USER | MAPPING_READ | MAPPING_WRITE | MAPPING_EXECUTE };
    assert_eq!(all.read_only().bits, MAPPING_USER | MAPPING_READ | MAPPING_EXECUTE);
    assert_eq!(all.read_only().read_only(), all.read_only());
}

#[test]
fn unknown_bits() {
    assert_eq!(MmapProt::from_bits(PROT_READ | 0x8), None);
    assert_eq!(MmapProt::from_bits(PROT_READ), Some(MmapProt { bits: PROT_READ }));
    assert_eq!(MmapProt::from_bits_truncate(PROT_READ | 0x8).bits, PROT_READ);
    assert_eq!(MmapFlags::from_bits(0x100 | MAP_PRIVATE), None);
    assert_eq!(MmapFlags::from_bits(MAP_STACK), Some(MmapFlags { bits: MAP_STACK }));
    assert_eq!(MmapFlags::from_bits_truncate(0x100 | MAP_PRIVATE).bits, MAP_PRIVATE);
    assert!(MmapFlags { bits: MAP_HUGETLB_1GB }.has(MAP_HUGETLB));
    assert!(!MmapFlags { bits: MAP_HUGETLB }.has(MAP_HUGETLB_1GB));
    assert_eq!(VmFlags::from_bits(0x100), None);
    assert_eq!(VmFlags::from_bits(VM_LOCKED), Some(VmFlags { bits: VM_LOCKED }));
    assert_eq!(VmFlags::from_bits_truncate(0x100 | VM_LOCKED).bits(), VM_LOCKED);
    assert_eq!(VmFlags::empty().bits(), 0);
}

#[test]
fn inserted_flags_are_loaded_and_removed_ones_are_not() {
    let mut flags = AtomicVmFlags::default();
    assert_eq!(flags.load().bits(), 0);
    flags.insert(VmFlags { bits: VM_LOCKED | VM_SHARED });
    assert_eq!(flags.load().bits(), VM_LOCKED | VM_SHARED);
    assert!(flags.load().contains(VmFlags { bits: VM_LOCKED }));
    flags.remove(VmFlags { bits: VM_SHARED | VM_DONTCOPY });
    assert_eq!(flags.load().bits(), VM_LOCKED);
    let copy = flags.clone();
    flags.remove(VmFlags { bits: VM_ALL });
    assert_eq!(copy.load().bits(), VM_LOCKED);
    assert_eq!(flags.load().bits(), 0);
}

#[test]
fn only_known_flags_are_loaded() {
    let flags = AtomicVmFlags::new(VmFlags { bits: 0x1000 | VM_SHARED });
    assert_eq!(flags.load().bits(), VM_SHARED);
}

#[test]
fn remove_undoes_insert() {
    let mut flags = AtomicVmFlags::new(VmFlags { bits: VM_SHARED });
    flags.insert(VmFlags { bits: VM_DONTCOPY });
    flags.remove(VmFlags { bits: VM_DONTCOPY });
    assert_eq!(flags.load().bits(), VM_SHARED);
}
