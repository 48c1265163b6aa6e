use cs2_radar::client::MemReaderModuleInfo;
use cs2_radar::elf::{file_offset_for_virtual_addr, find_symbol_virtual_addr, ElfError};
use cs2_radar::interfaces::{
    decode_interface_instance_runtime, decode_rip_target, find_interface_instance,
    find_interface_list_virtual, module_image, InterfaceEntry,
};
use cs2_radar::runtime::{HeadlessError, ModuleImage};

fn put16(b: &mut [u8], at: usize, v: u16) {
    b[at..at + 2].copy_from_slice(&v.to_le_bytes());
}
fn put32(b: &mut [u8], at: usize, v: u32) {
    b[at..at + 4].copy_from_slice(&v.to_le_bytes());
}
fn put64(b: &mut [u8], at: usize, v: u64) {
    b[at..at + 8].copy_from_slice(&v.to_le_bytes());
}

/// A 64-bit ELF image whose single loadable segment maps file offset 0 to
/// virtual address 0x1000, for 0x200 bytes.
fn tiny_elf() -> Vec<u8> {
    let mut b = vec![0u8; 0x200];
    b[0..4].copy_from_slice(&[0x7f, b'E', b'L', b'F']);
    b[4] = 2;
    b[5] = 1;
    b[6] = 1;
    put16(&mut b, 16, 3);
    put16(&mut b, 18, 0x3e);
    put32(&mut b, 20, 1);
    put64(&mut b, 32, 64);
    put16(&mut b, 52, 64);
    put16(&mut b, 54, 56);
    put16(&mut b, 56, 1);
    put16(&mut b, 58, 64);
    put32(&mut b, 64, 1);
    put32(&mut b, 68, 5);
    put64(&mut b, 72, 0);
    put64(&mut b, 80, 0x1000);
    put64(&mut b, 88, 0x1000);
    put64(&mut b, 96, 0x200);
    put64(&mut b, 104, 0x200);
    put64(&mut b, 112, 0x1000);
    b
}

#[test]
fn module_image_prefers_file_offset_zero_for_image_base() {
    let modules = vec![
        MemReaderModuleInfo {
            base: 0x2000,
            end: 0x3000,
            file_offset: 0x1000,
            perms: "r-xp".to_string(),
            path: "/tmp/libclient.so".to_string(),
        },
        MemReaderModuleInfo {
            base: 0x1000,
            end: 0x2000,
            file_offset: 0,
            perms: "r-xp".to_string(),
            path: "/tmp/libclient.so".to_string(),
        },
    ];

    assert_eq!(
        module_image(&modules, "libclient.so"),
        Some(ModuleImage {
            path: "/tmp/libclient.so".to_string(),
            image_base: 0x1000,
            image_end: 0x3000,
        })
    );
}

#[test]
fn module_image_falls_back_to_the_lowest_mapping() {
    let modules = vec![
        MemReaderModuleInfo {
            base: 0x5000,
            end: 0x9000,
            file_offset: 0x3000,
            perms: "rw-p".to_string(),
            path: "/opt/libengine2.so".to_string(),
        },
        MemReaderModuleInfo {
            base: 0x4000,
            end: 0x5000,
            file_offset: 0x1000,
            perms: "r--p".to_string(),
            path: "/opt/libengine2.so".to_string(),
        },
        MemReaderModuleInfo {
            base: 0x100,
            end: 0x200,
            file_offset: 0,
            perms: "r--p".to_string(),
            path: "/opt/other.so".to_string(),
        },
    ];
    let image = module_image(&modules, "libengine2.so").expect("image");
    assert_eq!(image.image_base, 0x4000);
    assert_eq!(image.image_end, 0x9000);
    assert_eq!(module_image(&modules, "libmissing.so"), None);
}

#[test]
fn rip_targets_are_decoded() {
    assert_eq!(decode_rip_target(0x1000, &[0x48, 0x8B, 0x1D, 0x10, 0, 0, 0]), Ok(0x1017));
    assert_eq!(decode_rip_target(0x1000, &[0x48, 0x8B, 0x1D, 0xFF, 0xFF, 0xFF, 0xFF]), Ok(0x1006));
    assert!(matches!(
        decode_rip_target(0x1000, &[0x48, 0x8B]),
        Err(HeadlessError::Truncated { .. })
    ));
}

#[test]
fn interface_list_is_found_by_its_load() {
    let mut file = vec![0u8; 0x80];
    file[0x20..0x2C].copy_from_slice(&[0x48, 0x8B, 0x1D, 0x00, 0x01, 0, 0, 0x48, 0x85, 0xDB, 0x74, 0x05]);
    assert_eq!(find_interface_list_virtual(&file, None), Ok(Some(0x127)));
    assert_eq!(find_interface_list_virtual(&[0u8; 0x40], None), Ok(None));
    assert_eq!(find_interface_list_virtual(&file, Some(0x20)), Err(HeadlessError::ImageParse));
}

#[test]
fn elf_images_map_addresses_to_file_offsets() {
    let elf = tiny_elf();
    assert_eq!(file_offset_for_virtual_addr(&elf, 0x1010), Ok(Some(0x10)));
    assert_eq!(file_offset_for_virtual_addr(&elf, 0x11FF), Ok(Some(0x1FF)));
    assert_eq!(file_offset_for_virtual_addr(&elf, 0x1200), Ok(None));
    assert_eq!(file_offset_for_virtual_addr(&elf, 0x0FFF), Ok(None));
    assert_eq!(file_offset_for_virtual_addr(&[1, 2, 3], 0x1010), Err(ElfError::Parse));
    assert_eq!(find_symbol_virtual_addr(&elf, "CreateInterface"), Ok(None));
    assert_eq!(find_symbol_virtual_addr(&[1, 2, 3], "CreateInterface"), Err(ElfError::Parse));
}

#[test]
fn interface_instances_are_decoded_from_their_factory() {
    let mut elf = tiny_elf();
    elf[0x100..0x108].copy_from_slice(&[0x48, 0x8D, 0x05, 0x20, 0x00, 0x00, 0x00, 0xC3]);
    let module = ModuleImage { path: "/x/libengine2.so".to_string(), image_base: 0x7000_0000, image_end: 0x7001_0000 };
    let entry = InterfaceEntry { name: "GameResourceServiceClientV001".to_string(), create_fn: 0x7000_1100 };
    assert_eq!(decode_interface_instance_runtime(&module, &elf, &entry), Ok(Some(0x7000_1127)));
    let entries = vec![
        InterfaceEntry { name: "Other001".to_string(), create_fn: 0x7000_1000 },
        entry.clone(),
    ];
    assert_eq!(
        find_interface_instance(&module, &elf, &entries, "GameResourceServiceClientV0"),
        Ok(Some(0x7000_1127))
    );
    assert_eq!(find_interface_instance(&module, &elf, &entries, "Missing"), Ok(None));
    let not_static = InterfaceEntry { name: "X".to_string(), create_fn: 0x7000_1000 };
    assert_eq!(decode_interface_instance_runtime(&module, &elf, &not_static), Ok(None));
    let below = InterfaceEntry { name: "X".to_string(), create_fn: 0x10 };
    assert!(matches!(
        decode_interface_instance_runtime(&module, &elf, &below),
        Err(HeadlessError::AddressUnderflow { .. })
    ));
    let unmapped = InterfaceEntry { name: "X".to_string(), create_fn: 0x7000_5000 };
    assert_eq!(decode_interface_instance_runtime(&module, &elf, &unmapped), Ok(None));
}
