use vignette::build_id::elf_build_id;

fn put_u16(b: &mut Vec<u8>, off: usize, v: u16) {
    b[off] = (v & 0xff) as u8;
    b[off + 1] = (v >> 8) as u8;
}

fn put_u32(b: &mut Vec<u8>, off: usize, v: u32) {
    for k in 0..4 {
        b[off + k] = ((v >> (8 * k)) & 0xff) as u8;
    }
}

fn put_u64(b: &mut Vec<u8>, off: usize, v: u64) {
    for k in 0..8 {
        b[off + k] = ((v >> (8 * k)) & 0xff) as u8;
    }
}

/// A minimal 64-bit little-endian ELF image: the header, one program header
/// of the given type, and one note with the given owner name, note type and
/// descriptor.
fn elf_with_note(p_type: u32, name: &[u8], n_type: u32, desc: &[u8]) -> Vec<u8> {
    let note_off = 64 + 56;
    let name_pad = (name.len() + 3) / 4 * 4;
    let desc_pad = (desc.len() + 3) / 4 * 4;
    let total = note_off + 12 + name_pad + desc_pad;
    let mut b = vec![0u8; total];
    b[0] = 0x7f;
    b[1] = 0x45;
    b[2] = 0x4c;
    b[3] = 0x46;
    b[4] = 2;
    b[5] = 1;
    put_u64(&mut b, 32, 64);
    put_u16(&mut b, 54, 56);
    put_u16(&mut b, 56, 1);
    // Program header: type, then offset and file size of the note stream.
    put_u32(&mut b, 64, p_type);
    put_u64(&mut b, 64 + 8, note_off as u64);
    put_u64(&mut b, 64 + 32, (total - note_off) as u64);
    // The note itself.
    put_u32(&mut b, note_off, name.len() as u32);
    put_u32(&mut b, note_off + 4, desc.len() as u32);
    put_u32(&mut b, note_off + 8, n_type);
    for (k, &c) in name.iter().enumerate() {
        b[note_off + 12 + k] = c;
    }
    for (k, &c) in desc.iter().enumerate() {
        b[note_off + 12 + name_pad + k] = c;
    }
    b
}

#[test]
fn build_id_is_uppercase_hex_of_descriptor() {
    let b = elf_with_note(4, b"GNU\0", 3, &[0xab, 0xcd, 0xef, 0x01]);
    assert_eq!(elf_build_id(&b).unwrap(), "ABCDEF01");
}

#[test]
fn build_id_of_twenty_byte_descriptor() {
    let desc: Vec<u8> = (0..20).map(|k| (k as u8).wrapping_mul(13).wrapping_add(7)).collect();
    let b = elf_with_note(4, b"GNU\0", 3, &desc);
    let id = elf_build_id(&b).unwrap();
    assert_eq!(id.len(), 40);
    assert!(id.chars().all(|c| c.is_ascii_hexdigit() && !c.is_ascii_lowercase()));
    assert_eq!(&id[0..4], "0714");
}

#[test]
fn non_elf_input_yields_none() {
    assert!(elf_build_id(&[]).is_none());
    assert!(elf_build_id(&[0x7f, 0x45, 0x4c]).is_none());
    let mut not_elf = vec![0u8; 128];
    not_elf[0] = 0x7f;
    assert!(elf_build_id(&not_elf).is_none());
}

#[test]
fn wrong_owner_or_type_yields_none() {
    let wrong_owner = elf_with_note(4, b"ABC\0", 3, &[1, 2, 3, 4]);
    assert!(elf_build_id(&wrong_owner).is_none());
    let wrong_type = elf_with_note(4, b"GNU\0", 7, &[1, 2, 3, 4]);
    assert!(elf_build_id(&wrong_type).is_none());
    let not_a_note_segment = elf_with_note(1, b"GNU\0", 3, &[1, 2, 3, 4]);
    assert!(elf_build_id(&not_a_note_segment).is_none());
}

#[test]
fn empty_descriptor_yields_empty_hex() {
    let b = elf_with_note(4, b"GNU\0", 3, &[]);
    assert_eq!(elf_build_id(&b).unwrap(), "");
}

fn put_be_u32(b: &mut Vec<u8>, off: usize, v: u32) {
    for k in 0..4 {
        b[off + k] = ((v >> (8 * (3 - k))) & 0xff) as u8;
    }
}

/// A minimal 64-bit little-endian Mach-O image with one load command.
fn macho_with_command(cputype: u32, cmd: u32, payload: &[u8]) -> Vec<u8> {
    let cmdsize = 8 + payload.len();
    let mut b = vec![0u8; 32 + cmdsize];
    b[0] = 0xcf;
    b[1] = 0xfa;
    b[2] = 0xed;
    b[3] = 0xfe;
    put_u32(&mut b, 4, cputype);
    put_u32(&mut b, 16, 1); // one load command
    put_u32(&mut b, 20, cmdsize as u32);
    put_u32(&mut b, 32, cmd);
    put_u32(&mut b, 36, cmdsize as u32);
    for (k, &c) in payload.iter().enumerate() {
        b[40 + k] = c;
    }
    b
}

#[test]
fn macho_uuid_is_uppercase_hex() {
    let uuid: Vec<u8> = (0..16).collect();
    let b = macho_with_command(0x0100_0007, 0x1b, &uuid);
    assert_eq!(
        vignette::build_id::macho_build_id(&b).unwrap(),
        "000102030405060708090A0B0C0D0E0F"
    );
}

#[test]
fn macho_of_other_processor_type_yields_none() {
    let uuid: Vec<u8> = (0..16).collect();
    let b = macho_with_command(0x0100_000c, 0x1b, &uuid);
    assert!(vignette::build_id::macho_build_id(&b).is_none());
}

#[test]
fn macho_without_uuid_command_yields_none() {
    let payload = [0u8; 16];
    let b = macho_with_command(0x0100_0007, 0x2, &payload);
    assert!(vignette::build_id::macho_build_id(&b).is_none());
}

#[test]
fn fat_binary_takes_the_first_x86_64_slice() {
    let uuid: Vec<u8> = (16..32).collect();
    let inner = macho_with_command(0x0100_0007, 0x1b, &uuid);
    // Fat header, two arch entries, then the embedded image.
    let inner_off = 8 + 2 * 20;
    let mut b = vec![0u8; inner_off + inner.len()];
    b[0] = 0xca;
    b[1] = 0xfe;
    b[2] = 0xba;
    b[3] = 0xbe;
    put_be_u32(&mut b, 4, 2);
    // First slice: another processor type.
    put_be_u32(&mut b, 8, 0x0100_000c);
    put_be_u32(&mut b, 8 + 8, 0);
    // Second slice: 64-bit x86, at the embedded image.
    put_be_u32(&mut b, 28, 0x0100_0007);
    put_be_u32(&mut b, 28 + 8, inner_off as u32);
    put_be_u32(&mut b, 28 + 12, inner.len() as u32);
    for (k, &c) in inner.iter().enumerate() {
        b[inner_off + k] = c;
    }
    assert_eq!(
        vignette::build_id::macho_build_id(&b).unwrap(),
        "101112131415161718191A1B1C1D1E1F"
    );
}
