//! Build-ID extraction from the bytes of an on-disk binary.
//!
//! A 64-bit little-endian ELF file carries its build-ID in a note with owner
//! name `"GNU"` (four bytes including the terminating NUL) and type
//! `NT_GNU_BUILD_ID`, inside a `PT_NOTE` program segment. The extractor
//! walks the program header table, scans each note segment in order, and
//! hex-encodes the descriptor of the first such note using uppercase digits.
//! A Mach-O binary instead carries a sixteen-byte UUID in its `LC_UUID` load
//! command; of a fat binary, the first 64-bit x86 slice is taken. Malformed
//! or truncated input never fails loudly: it yields `None`.

use vstd::prelude::*;

verus! {

/// The little-endian integer formed by `n` bytes starting at `off`.
pub open spec fn le_bytes(b: Seq<u8>, off: int, n: nat) -> nat
    decreases n,
{
    if n == 0 {
        0
    } else {
        (b[off] + 256 * le_bytes(b, off + 1, (n - 1) as nat)) as nat
    }
}

/// `n` rounded up to the next multiple of four.
pub open spec fn spec_align4(n: int) -> int {
    ((n + 3) / 4) * 4
}

/// The uppercase hexadecimal digit for a value below sixteen.
pub open spec fn spec_hex_upper_digit(n: int) -> char {
    if n == 0 {
        '0'
    } else if n == 1 {
        '1'
    } else if n == 2 {
        '2'
    } else if n == 3 {
        '3'
    } else if n == 4 {
        '4'
    } else if n == 5 {
        '5'
    } else if n == 6 {
        '6'
    } else if n == 7 {
        '7'
    } else if n == 8 {
        '8'
    } else if n == 9 {
        '9'
    } else if n == 10 {
        'A'
    } else if n == 11 {
        'B'
    } else if n == 12 {
        'C'
    } else if n == 13 {
        'D'
    } else if n == 14 {
        'E'
    } else {
        'F'
    }
}

/// The uppercase hexadecimal rendering of a byte string: two digits per
/// byte, high nibble first, no separators.
pub open spec fn spec_hex_upper(b: Seq<u8>) -> Seq<char> {
    Seq::new(
        b.len() * 2,
        |i: int|
            if i % 2 == 0 {
                spec_hex_upper_digit(b[i / 2] as int / 16)
            } else {
                spec_hex_upper_digit(b[i / 2] as int % 16)
            },
    )
}

/// The four owner-name bytes of a GNU note: `"GNU"` with a terminating NUL.
pub open spec fn gnu_note_name() -> Seq<u8> {
    seq![0x47u8, 0x4eu8, 0x55u8, 0x00u8]
}

/// The descriptor of the first GNU build-ID note in the note stream
/// `[off, end)` of `b`, walking notes by their padded sizes. A note that
/// does not fit inside the stream ends the walk.
pub open spec fn spec_find_build_id_note(b: Seq<u8>, off: int, end: int) -> Option<Seq<u8>>
    decreases end - off,
{
    if off < 0 || off + 12 > end {
        None
    } else {
        let namesz = le_bytes(b, off, 4) as int;
        let descsz = le_bytes(b, off + 4, 4) as int;
        let ntype = le_bytes(b, off + 8, 4) as int;
        let name_off = off + 12;
        let desc_off = name_off + spec_align4(namesz);
        let next = desc_off + spec_align4(descsz);
        if desc_off + descsz > end {
            None
        } else if namesz == 4 && ntype == 3 && b.subrange(name_off, name_off + 4) == gnu_note_name() {
            Some(b.subrange(desc_off, desc_off + descsz))
        } else if next > end {
            None
        } else {
            spec_find_build_id_note(b, next, end)
        }
    }
}

/// Whether `b` begins with the header of a 64-bit little-endian ELF file.
pub open spec fn spec_is_elf64_le(b: Seq<u8>) -> bool {
    &&& b.len() >= 64
    &&& b[0] == 0x7fu8
    &&& b[1] == 0x45u8
    &&& b[2] == 0x4cu8
    &&& b[3] == 0x46u8
    &&& b[4] == 0x02u8
    &&& b[5] == 0x01u8
}

/// The descriptor of the first GNU build-ID note found while scanning the
/// program header table from entry `i` on. Only `PT_NOTE` segments are
/// searched; a header entry that does not fit inside the file ends the scan.
pub open spec fn spec_scan_phdrs(b: Seq<u8>, phoff: int, phentsize: int, phnum: int, i: int) -> Option<
    Seq<u8>,
>
    decreases phnum - i,
{
    if i < 0 || i >= phnum {
        None
    } else {
        let ph = phoff + i * phentsize;
        if ph < 0 || ph + 56 > b.len() {
            None
        } else {
            let ptype = le_bytes(b, ph, 4) as int;
            let poff = le_bytes(b, ph + 8, 8) as int;
            let pfilesz = le_bytes(b, ph + 32, 8) as int;
            let end = if poff + pfilesz <= b.len() {
                poff + pfilesz
            } else {
                b.len() as int
            };
            if ptype == 4 {
                match spec_find_build_id_note(b, poff, end) {
                    Some(d) => Some(d),
                    None => spec_scan_phdrs(b, phoff, phentsize, phnum, i + 1),
                }
            } else {
                spec_scan_phdrs(b, phoff, phentsize, phnum, i + 1)
            }
        }
    }
}

/// The build-ID descriptor bytes of an ELF file, if one can be extracted.
pub open spec fn spec_elf_build_id(b: Seq<u8>) -> Option<Seq<u8>> {
    if spec_is_elf64_le(b) {
        spec_scan_phdrs(
            b,
            le_bytes(b, 32, 8) as int,
            le_bytes(b, 54, 2) as int,
            le_bytes(b, 56, 2) as int,
            0,
        )
    } else {
        None
    }
}

/// Relies on hex::encode_upper: the result is two uppercase hexadecimal
/// digits for each input byte, high nibble first.
#[verifier::external_body]
fn hex_encode_upper(bytes: &Vec<u8>) -> (r: String)
    ensures
        r@ == spec_hex_upper(bytes@),
{
    hex::encode_upper(bytes)
}

fn read_le_u16(b: &[u8], off: usize) -> (r: u16)
    requires
        off + 2 <= b@.len(),
    ensures
        r == le_bytes(b@, off as int, 2),
{
    let _len_bound = b.len();
    let r = b[off] as u16 + 256 * (b[off + 1] as u16);
    proof {
        reveal_with_fuel(le_bytes, 3);
    }
    r
}

fn read_le_u32(b: &[u8], off: usize) -> (r: u32)
    requires
        off + 4 <= b@.len(),
    ensures
        r == le_bytes(b@, off as int, 4),
{
    let _len_bound = b.len();
    let r = b[off] as u32 + 256 * (b[off + 1] as u32 + 256 * (b[off + 2] as u32 + 256 * (b[off + 3]
        as u32)));
    proof {
        reveal_with_fuel(le_bytes, 5);
    }
    r
}

fn read_le_u64(b: &[u8], off: usize) -> (r: u64)
    requires
        off + 8 <= b@.len(),
    ensures
        r == le_bytes(b@, off as int, 8),
{
    let _len_bound = b.len();
    let r = b[off] as u64 + 256 * (b[off + 1] as u64 + 256 * (b[off + 2] as u64 + 256 * (b[off + 3]
        as u64 + 256 * (b[off + 4] as u64 + 256 * (b[off + 5] as u64 + 256 * (b[off + 6] as u64 + 256
        * (b[off + 7] as u64)))))));
    proof {
        reveal_with_fuel(le_bytes, 9);
    }
    r
}

/// `n` rounded up to the next multiple of four.
fn align4_u64(n: u32) -> (r: u64)
    ensures
        r == spec_align4(n as int),
{
    ((n as u64) + 3) / 4 * 4
}

/// Copies `len` bytes of `b` starting at `off`.
fn copy_bytes(b: &[u8], off: usize, len: usize) -> (r: Vec<u8>)
    requires
        off + len <= b@.len(),
    ensures
        r@ == b@.subrange(off as int, off as int + len as int),
{
    let blen = b.len();
    let mut r: Vec<u8> = Vec::new();
    let mut i: usize = 0;
    while i < len
        invariant
            off + len <= b@.len(),
            b@.len() == blen,
            0 <= i <= len,
            r@.len() == i,
            forall|j: int| 0 <= j < i ==> r@[j] == b@[off + j],
        decreases len - i,
    {
        r.push(b[off + i]);
        i += 1;
    }
    proof {
        assert(r@ =~= b@.subrange(off as int, off as int + len as int));
    }
    r
}

/// What one step of the note walk finds at `off`: the walk is over, the
/// build-ID note's descriptor is here, or the walk continues at the next
/// note.
enum NoteStep {
    Stop,
    Found(u64, u64),
    Next(u64),
}

/// Examines the one note at `off` in the note stream `[off, end)`.
#[verifier::rlimit(30)]
fn note_step(b: &[u8], off: u64, end: u64) -> (r: NoteStep)
    requires
        end <= b@.len(),
        off <= end,
    ensures
        match r {
            NoteStep::Stop => spec_find_build_id_note(b@, off as int, end as int) is None,
            NoteStep::Found(doff, dlen) => {
                &&& spec_find_build_id_note(b@, off as int, end as int) == Some(
                    b@.subrange(doff as int, doff as int + dlen as int),
                )
                &&& doff + dlen <= end
            },
            NoteStep::Next(next) => {
                &&& off < next <= end
                &&& spec_find_build_id_note(b@, off as int, end as int)
                    == spec_find_build_id_note(b@, next as int, end as int)
            },
        },
{
    let blen = b.len();
    if end - off < 12 {
        return NoteStep::Stop;
    }
    let offu = off as usize;
    let namesz = read_le_u32(b, offu);
    let descsz = read_le_u32(b, offu + 4);
    let ntype = read_le_u32(b, offu + 8);
    let name_off: u64 = off + 12;
    let a_name = align4_u64(namesz);
    let a_desc = align4_u64(descsz);
    let desc_off128: u128 = name_off as u128 + a_name as u128;
    let desc_end128: u128 = desc_off128 + descsz as u128;
    proof {
        assert(desc_off128 as int == off + 12 + spec_align4(namesz as int));
        assert(desc_end128 as int == off + 12 + spec_align4(namesz as int) + descsz);
    }
    if desc_end128 > end as u128 {
        return NoteStep::Stop;
    }
    let desc_off: u64 = desc_off128 as u64;
    if namesz == 4 && ntype == 3 {
        let no = offu + 12;
        if b[no] == 0x47 && b[no + 1] == 0x4e && b[no + 2] == 0x55 && b[no + 3] == 0x00 {
            proof {
                assert(b@.subrange(name_off as int, name_off as int + 4) =~= gnu_note_name());
            }
            return NoteStep::Found(desc_off, descsz as u64);
        }
        proof {
            assert(b@.subrange(name_off as int, name_off as int + 4) != gnu_note_name()) by {
                let sub = b@.subrange(name_off as int, name_off as int + 4);
                if sub == gnu_note_name() {
                    assert(sub[0] == 0x47u8 && sub[1] == 0x4eu8 && sub[2] == 0x55u8 && sub[3]
                        == 0x00u8);
                }
            }
        }
    }
    let next128: u128 = desc_off128 + a_desc as u128;
    if next128 > end as u128 {
        return NoteStep::Stop;
    }
    let next: u64 = next128 as u64;
    proof {
        assert(next as int == off + 12 + spec_align4(namesz as int) + spec_align4(descsz as int));
        assert(spec_align4(namesz as int) >= 0 && spec_align4(descsz as int) >= 0);
    }
    NoteStep::Next(next)
}

/// Scans the note stream `[off, end)` for the first GNU build-ID note and
/// returns the position and length of its descriptor.
fn scan_notes(b: &[u8], off: u64, end: u64) -> (r: Option<(u64, u64)>)
    requires
        end <= b@.len(),
    ensures
        match spec_find_build_id_note(b@, off as int, end as int) {
            Some(d) => r matches Some((doff, dlen)) && doff + dlen <= end && b@.subrange(
                doff as int,
                doff as int + dlen as int,
            ) == d,
            None => r is None,
        },
{
    if off > end {
        return None;
    }
    let mut cur = off;
    loop
        invariant
            end <= b@.len(),
            cur <= end,
            spec_find_build_id_note(b@, cur as int, end as int) == spec_find_build_id_note(
                b@,
                off as int,
                end as int,
            ),
        decreases end as int - cur as int,
    {
        match note_step(b, cur, end) {
            NoteStep::Stop => {
                return None;
            },
            NoteStep::Found(doff, dlen) => {
                return Some((doff, dlen));
            },
            NoteStep::Next(next) => {
                cur = next;
            },
        }
    }
}

/// What one step over the program header table yields: the scan is over, a
/// build-ID descriptor was found at the given position and length, or the
/// scan moves to the next entry.
enum PhdrStep {
    Stop,
    Found(u64, u64),
    Next,
}

/// Examines the one program header entry at index `i`.
#[verifier::rlimit(30)]
fn phdr_step(b: &[u8], phoff: u64, phentsize: u16, phnum: u16, i: u16) -> (r: PhdrStep)
    requires
        i < phnum,
    ensures
        match r {
            PhdrStep::Stop => spec_scan_phdrs(
                b@,
                phoff as int,
                phentsize as int,
                phnum as int,
                i as int,
            ) is None,
            PhdrStep::Found(doff, dlen) => {
                &&& spec_scan_phdrs(b@, phoff as int, phentsize as int, phnum as int, i as int)
                    == Some(b@.subrange(doff as int, doff as int + dlen as int))
                &&& doff + dlen <= b@.len()
            },
            PhdrStep::Next => spec_scan_phdrs(b@, phoff as int, phentsize as int, phnum as int, i as int)
                == spec_scan_phdrs(b@, phoff as int, phentsize as int, phnum as int, i as int + 1),
        },
{
    let blen = b.len();
    proof {
        assert((i as int) * (phentsize as int) <= 0xffff * 0xffff) by (nonlinear_arith)
            requires
                0 <= i <= 0xffff,
                0 <= phentsize <= 0xffff,
        ;
        assert((i as int) * (phentsize as int) >= 0) by (nonlinear_arith)
            requires
                0 <= i,
                0 <= phentsize,
        ;
    }
    let ph128: u128 = phoff as u128 + (i as u128) * (phentsize as u128);
    if ph128 + 56 > blen as u128 {
        return PhdrStep::Stop;
    }
    let ph: usize = ph128 as usize;
    proof {
        assert(ph as int == phoff + (i as int) * (phentsize as int));
    }
    let ptype = read_le_u32(b, ph);
    if ptype != 4 {
        return PhdrStep::Next;
    }
    let poff = read_le_u64(b, ph + 8);
    let pfilesz = read_le_u64(b, ph + 32);
    let pend128: u128 = poff as u128 + pfilesz as u128;
    let end: u64 = if pend128 <= blen as u128 {
        pend128 as u64
    } else {
        blen as u64
    };
    match scan_notes(b, poff, end) {
        Some((doff, dlen)) => PhdrStep::Found(doff, dlen),
        None => PhdrStep::Next,
    }
}

/// Extracts the build-ID of a 64-bit little-endian ELF binary from its file
/// bytes, as uppercase hexadecimal. `None` means no GNU build-ID note is
/// present or the input is not such an ELF file.
pub fn elf_build_id(b: &[u8]) -> (r: Option<String>)
    ensures
        match spec_elf_build_id(b@) {
            Some(d) => r matches Some(s) && s@ == spec_hex_upper(d),
            None => r is None,
        },
{
    let blen = b.len();
    if blen < 64 {
        return None;
    }
    if !(b[0] == 0x7f && b[1] == 0x45 && b[2] == 0x4c && b[3] == 0x46 && b[4] == 0x02 && b[5]
        == 0x01) {
        return None;
    }
    proof {
        assert(spec_is_elf64_le(b@));
    }
    let phoff = read_le_u64(b, 32);
    let phentsize = read_le_u16(b, 54);
    let phnum = read_le_u16(b, 56);
    let mut i: u16 = 0;
    loop
        invariant
            blen == b@.len(),
            spec_is_elf64_le(b@),
            phoff == le_bytes(b@, 32, 8),
            phentsize == le_bytes(b@, 54, 2),
            phnum == le_bytes(b@, 56, 2),
            i <= phnum,
            spec_scan_phdrs(b@, phoff as int, phentsize as int, phnum as int, i as int)
                == spec_scan_phdrs(b@, phoff as int, phentsize as int, phnum as int, 0),
        decreases phnum as int - i as int,
    {
        if i >= phnum {
            return None;
        }
        match phdr_step(b, phoff, phentsize, phnum, i) {
            PhdrStep::Stop => {
                return None;
            },
            PhdrStep::Found(doff, dlen) => {
                let desc = copy_bytes(b, doff as usize, dlen as usize);
                let s = hex_encode_upper(&desc);
                return Some(s);
            },
            PhdrStep::Next => {
                i += 1;
            },
        }
    }
}

/// The big-endian integer formed by `n` bytes starting at `off`.
pub open spec fn be_bytes(b: Seq<u8>, off: int, n: nat) -> nat
    decreases n,
{
    if n == 0 {
        0
    } else {
        (be_bytes(b, off, (n - 1) as nat) * 256 + b[off + n - 1]) as nat
    }
}

/// The 64-bit x86 processor type, as both Mach-O headers and fat archive
/// entries name it.
pub const CPU_TYPE_X86_64: u32 = 0x0100_0007;

/// Whether a 64-bit little-endian Mach-O header for that processor type
/// starts at `base`.
pub open spec fn spec_is_macho64_le(b: Seq<u8>, base: int) -> bool {
    &&& 0 <= base
    &&& base + 32 <= b.len()
    &&& b[base] == 0xcfu8
    &&& b[base + 1] == 0xfau8
    &&& b[base + 2] == 0xedu8
    &&& b[base + 3] == 0xfeu8
    &&& le_bytes(b, base + 4, 4) == CPU_TYPE_X86_64
}

/// The UUID of the first `LC_UUID` among the `k` load commands in
/// `[off, end)`, walking commands by their sizes. A command that does not
/// fit, or whose size could not advance the walk, ends it.
pub open spec fn spec_find_uuid(b: Seq<u8>, off: int, end: int, k: int) -> Option<Seq<u8>>
    decreases k,
{
    if k <= 0 {
        None
    } else if off < 0 || off + 8 > end {
        None
    } else {
        let cmd = le_bytes(b, off, 4) as int;
        let cmdsize = le_bytes(b, off + 4, 4) as int;
        if cmdsize < 8 || off + cmdsize > end {
            None
        } else if cmd == 0x1b && cmdsize >= 24 {
            Some(b.subrange(off + 8, off + 24))
        } else {
            spec_find_uuid(b, off + cmdsize, end, k - 1)
        }
    }
}

/// The UUID of the Mach-O image at `base`: what its `LC_UUID` load command
/// carries, if the image is 64-bit little-endian x86 and has one.
pub open spec fn spec_macho_uuid_at(b: Seq<u8>, base: int) -> Option<Seq<u8>> {
    if spec_is_macho64_le(b, base) {
        let ncmds = le_bytes(b, base + 16, 4) as int;
        let sizeofcmds = le_bytes(b, base + 20, 4) as int;
        let end = if base + 32 + sizeofcmds <= b.len() {
            base + 32 + sizeofcmds
        } else {
            b.len() as int
        };
        spec_find_uuid(b, base + 32, end, ncmds)
    } else {
        None
    }
}

/// Whether `b` begins with the big-endian magic of a fat archive.
pub open spec fn spec_is_fat_be(b: Seq<u8>) -> bool {
    &&& b.len() >= 8
    &&& b[0] == 0xcau8
    &&& b[1] == 0xfeu8
    &&& b[2] == 0xbau8
    &&& b[3] == 0xbeu8
}

/// The file offset of the first 64-bit x86 slice among the fat archive's
/// arch entries from index `i` on.
pub open spec fn spec_fat_x86_64_slice(b: Seq<u8>, n: int, i: int) -> Option<int>
    decreases n - i,
{
    if i < 0 || i >= n {
        None
    } else {
        let arch = 8 + i * 20;
        if arch + 20 > b.len() {
            None
        } else if be_bytes(b, arch, 4) == CPU_TYPE_X86_64 {
            Some(be_bytes(b, arch + 8, 4) as int)
        } else {
            spec_fat_x86_64_slice(b, n, i + 1)
        }
    }
}

/// The UUID bytes of a Mach-O file: of the image itself, or of its first
/// 64-bit x86 slice when the file is a fat archive.
pub open spec fn spec_macho_build_id(b: Seq<u8>) -> Option<Seq<u8>> {
    if spec_is_fat_be(b) {
        match spec_fat_x86_64_slice(b, be_bytes(b, 4, 4) as int, 0) {
            Some(base) => spec_macho_uuid_at(b, base),
            None => None,
        }
    } else {
        spec_macho_uuid_at(b, 0)
    }
}

fn read_be_u32(b: &[u8], off: usize) -> (r: u32)
    requires
        off + 4 <= b@.len(),
    ensures
        r == be_bytes(b@, off as int, 4),
{
    let _len_bound = b.len();
    let r = ((b[off] as u32 * 256 + b[off + 1] as u32) * 256 + b[off + 2] as u32) * 256 + b[off + 3]
        as u32;
    proof {
        reveal_with_fuel(be_bytes, 5);
    }
    r
}

/// What one step of the load-command walk finds at `off`.
enum CmdStep {
    Stop,
    Found(u64),
    Next(u64),
}

/// Examines the one load command at `off` in the command region `[off, end)`
/// of which `k` commands remain.
#[verifier::rlimit(30)]
fn command_step(b: &[u8], off: u64, end: u64, k: u32) -> (r: CmdStep)
    requires
        end <= b@.len(),
        k >= 1,
    ensures
        match r {
            CmdStep::Stop => spec_find_uuid(b@, off as int, end as int, k as int) is None,
            CmdStep::Found(uoff) => {
                &&& spec_find_uuid(b@, off as int, end as int, k as int) == Some(
                    b@.subrange(uoff as int, uoff as int + 16),
                )
                &&& uoff + 16 <= end
            },
            CmdStep::Next(next) => {
                &&& off < next <= end
                &&& spec_find_uuid(b@, off as int, end as int, k as int) == spec_find_uuid(
                    b@,
                    next as int,
                    end as int,
                    k as int - 1,
                )
            },
        },
{
    let _len_bound = b.len();
    if off > end || end - off < 8 {
        return CmdStep::Stop;
    }
    let offu = off as usize;
    let cmd = read_le_u32(b, offu);
    let cmdsize = read_le_u32(b, offu + 4);
    if cmdsize < 8 {
        return CmdStep::Stop;
    }
    let cmd_end128: u128 = off as u128 + cmdsize as u128;
    if cmd_end128 > end as u128 {
        return CmdStep::Stop;
    }
    if cmd == 0x1b && cmdsize >= 24 {
        return CmdStep::Found(off + 8);
    }
    CmdStep::Next(cmd_end128 as u64)
}

/// Finds the `LC_UUID` of the image at `base` and returns the position of
/// its sixteen UUID bytes.
fn macho_uuid_at(b: &[u8], base: u64) -> (r: Option<u64>)
    ensures
        match spec_macho_uuid_at(b@, base as int) {
            Some(d) => r matches Some(uoff) && uoff + 16 <= b@.len() && b@.subrange(
                uoff as int,
                uoff as int + 16,
            ) == d,
            None => r is None,
        },
{
    let blen = b.len();
    if blen < 32 || base > (blen - 32) as u64 {
        return None;
    }
    let baseu = base as usize;
    if !(b[baseu] == 0xcf && b[baseu + 1] == 0xfa && b[baseu + 2] == 0xed && b[baseu + 3] == 0xfe) {
        return None;
    }
    if read_le_u32(b, baseu + 4) != CPU_TYPE_X86_64 {
        return None;
    }
    let ncmds = read_le_u32(b, baseu + 16);
    let sizeofcmds = read_le_u32(b, baseu + 20);
    let cmds_end128: u128 = base as u128 + 32 + sizeofcmds as u128;
    let end: u64 = if cmds_end128 <= blen as u128 {
        cmds_end128 as u64
    } else {
        blen as u64
    };
    let mut off: u64 = base + 32;
    let mut k: u32 = ncmds;
    if off > end {
        return None;
    }
    loop
        invariant
            end <= b@.len(),
            off <= end,
            spec_find_uuid(b@, off as int, end as int, k as int) == spec_macho_uuid_at(
                b@,
                base as int,
            ),
        decreases k,
    {
        if k == 0 {
            return None;
        }
        match command_step(b, off, end, k) {
            CmdStep::Stop => {
                return None;
            },
            CmdStep::Found(uoff) => {
                return Some(uoff);
            },
            CmdStep::Next(next) => {
                off = next;
                k = k - 1;
            },
        }
    }
}

/// Extracts the build-ID of a Mach-O binary from its file bytes, as
/// uppercase hexadecimal: the UUID of its `LC_UUID` load command, taking the
/// first 64-bit x86 slice of a fat binary. `None` means no such command or
/// slice is present or the input is not such a file.
pub fn macho_build_id(b: &[u8]) -> (r: Option<String>)
    ensures
        match spec_macho_build_id(b@) {
            Some(d) => r matches Some(s) && s@ == spec_hex_upper(d),
            None => r is None,
        },
{
    let blen = b.len();
    let base: Option<u64> = if blen >= 8 && b[0] == 0xca && b[1] == 0xfe && b[2] == 0xba && b[3]
        == 0xbe {
        let nfat = read_be_u32(b, 4);
        let mut i: u32 = 0;
        let mut found: Option<u64> = None;
        loop
            invariant_except_break
                found is None,
                spec_fat_x86_64_slice(b@, nfat as int, i as int) == spec_fat_x86_64_slice(
                    b@,
                    nfat as int,
                    0,
                ),
            invariant
                blen == b@.len(),
                spec_is_fat_be(b@),
                nfat == be_bytes(b@, 4, 4),
            ensures
                match spec_fat_x86_64_slice(b@, nfat as int, 0) {
                    Some(sl) => found matches Some(f) && f as int == sl,
                    None => found is None,
                },
            decreases nfat as int - i as int,
        {
            if i >= nfat {
                break ;
            }
            let arch128: u128 = 8 + (i as u128) * 20;
            if arch128 + 20 > blen as u128 {
                break ;
            }
            let arch = arch128 as usize;
            proof {
                assert(arch as int == 8 + (i as int) * 20);
            }
            if read_be_u32(b, arch) == CPU_TYPE_X86_64 {
                found = Some(read_be_u32(b, arch + 8) as u64);
                break ;
            }
            i += 1;
        }
        found
    } else {
        proof {
            assert(!spec_is_fat_be(b@));
        }
        Some(0)
    };
    match base {
        Some(base) => {
            match macho_uuid_at(b, base) {
                Some(uoff) => {
                    let uuid = copy_bytes(b, uoff as usize, 16);
                    Some(hex_encode_upper(&uuid))
                },
                None => None,
            }
        },
        None => None,
    }
}

} // verus!
