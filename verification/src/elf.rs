//! Flattening an ELF64 AArch64 kernel into the raw Image that Virtualization.framework boots.
use vstd::prelude::*;

verus! {

/// Why an ELF kernel cannot be flattened.
#[derive(Debug, Clone, Copy, PartialEq, Eq, Structural)]
pub enum ElfError {
    /// An ELF file of another class than 64 bit.
    NotElf64,
    /// An ELF64 file that is not little-endian.
    NotLittleEndian,
    /// An ELF64 file for another machine than AArch64.
    WrongMachine(u16),
    /// A header field at this offset lies past the end of the file.
    ShortRead(usize),
    /// A program-header entry smaller than the ELF64 layout.
    HeaderTooSmall(usize),
    /// A program header's start does not fit the address space.
    HeaderOffsetOverflow,
    /// A program header's end does not fit the address space.
    HeaderEndOverflow,
    /// Program header number `.0` runs past the end of the file.
    HeaderPastEof(usize),
    /// A LOAD segment's file range does not fit the address space.
    LoadRangeOverflow,
    /// LOAD segment number `.0` runs past the end of the file.
    LoadPastEof(usize),
    /// No LOAD segment holds any file bytes.
    NoLoadableSegments,
    /// The flattened image does not fit the address space.
    ImageSizeOverflow,
}

/// The e_machine value of AArch64.
pub const MACHINE_AARCH64: u16 = 183;

/// The p_type value of a LOAD segment.
pub const PT_LOAD: u32 = 1;

/// The size of one ELF64 program header.
pub const PROGRAM_HEADER_SIZE: usize = 56;

// ---------------------------------------------------------------------------------------------
// Little-endian fields
// ---------------------------------------------------------------------------------------------
/// The little-endian u16 at `o`.
pub open spec fn le16(b: Seq<u8>, o: int) -> u16 {
    (b[o] + 0x100 * b[o + 1]) as u16
}

/// The little-endian u32 at `o`.
pub open spec fn le32(b: Seq<u8>, o: int) -> u32 {
    (b[o] + 0x100 * b[o + 1] + 0x1_0000 * b[o + 2] + 0x100_0000 * b[o + 3]) as u32
}

/// The little-endian u64 at `o`.
pub open spec fn le64(b: Seq<u8>, o: int) -> u64 {
    (b[o] + 0x100 * b[o + 1] + 0x1_0000 * b[o + 2] + 0x100_0000 * b[o + 3] + 0x1_0000_0000 * b[o
        + 4] + 0x100_0000_0000 * b[o + 5] + 0x1_0000_0000_0000 * b[o + 6] + 0x100_0000_0000_0000
        * b[o + 7]) as u64
}

/// Read the little-endian u16 at `offset`.
pub fn read_u16_le(bytes: &[u8], offset: usize) -> (r: Result<u16, ElfError>)
    requires
        offset + 2 <= usize::MAX,
    ensures
        offset + 2 <= bytes@.len() ==> r == Ok::<u16, ElfError>(le16(bytes@, offset as int)),
        offset + 2 > bytes@.len() ==> r == Err::<u16, ElfError>(ElfError::ShortRead(offset)),
{
    if offset + 2 > bytes.len() {
        return Err(ElfError::ShortRead(offset));
    }
    Ok(bytes[offset] as u16 + 0x100 * (bytes[offset + 1] as u16))
}

/// Read the little-endian u32 at `offset`.
pub fn read_u32_le(bytes: &[u8], offset: usize) -> (r: Result<u32, ElfError>)
    requires
        offset + 4 <= usize::MAX,
    ensures
        offset + 4 <= bytes@.len() ==> r == Ok::<u32, ElfError>(le32(bytes@, offset as int)),
        offset + 4 > bytes@.len() ==> r == Err::<u32, ElfError>(ElfError::ShortRead(offset)),
{
    if offset + 4 > bytes.len() {
        return Err(ElfError::ShortRead(offset));
    }
    Ok(
        bytes[offset] as u32 + 0x100 * (bytes[offset + 1] as u32) + 0x1_0000 * (bytes[offset
            + 2] as u32) + 0x100_0000 * (bytes[offset + 3] as u32),
    )
}

/// Read the little-endian u64 at `offset`.
pub fn read_u64_le(bytes: &[u8], offset: usize) -> (r: Result<u64, ElfError>)
    requires
        offset + 8 <= usize::MAX,
    ensures
        offset + 8 <= bytes@.len() ==> r == Ok::<u64, ElfError>(le64(bytes@, offset as int)),
        offset + 8 > bytes@.len() ==> r == Err::<u64, ElfError>(ElfError::ShortRead(offset)),
{
    if offset + 8 > bytes.len() {
        return Err(ElfError::ShortRead(offset));
    }
    Ok(
        bytes[offset] as u64 + 0x100 * (bytes[offset + 1] as u64) + 0x1_0000 * (bytes[offset
            + 2] as u64) + 0x100_0000 * (bytes[offset + 3] as u64) + 0x1_0000_0000 * (bytes[offset
            + 4] as u64) + 0x100_0000_0000 * (bytes[offset + 5] as u64) + 0x1_0000_0000_0000 * (
        bytes[offset + 6] as u64) + 0x100_0000_0000_0000 * (bytes[offset + 7] as u64),
    )
}

// ---------------------------------------------------------------------------------------------
// What a kernel file holds
// ---------------------------------------------------------------------------------------------
/// Whether a file starts with the ELF magic.
pub open spec fn is_elf(b: Seq<u8>) -> bool {
    b.len() >= 4 && b[0] == 0x7f && b[1] == 0x45 && b[2] == 0x4c && b[3] == 0x46
}

/// Where the program-header table starts.
pub open spec fn table_offset(b: Seq<u8>) -> usize {
    le64(b, 32) as usize
}

/// The size of one program-header entry.
pub open spec fn entry_size(b: Seq<u8>) -> usize {
    le16(b, 54) as usize
}

/// The number of program headers.
pub open spec fn entry_count(b: Seq<u8>) -> usize {
    le16(b, 56) as usize
}

/// Where program header `i` starts.
pub open spec fn entry_start(b: Seq<u8>, i: int) -> int {
    table_offset(b) + i * entry_size(b)
}

/// The file bytes of one LOAD segment and the physical address they are loaded at.
#[derive(Debug, Clone, Copy)]
pub struct LoadSegment {
    pub offset: usize,
    pub paddr: u64,
    pub filesz: usize,
}

/// Program header `i` read as a LOAD segment.
pub open spec fn segment_at(b: Seq<u8>, i: int) -> LoadSegment {
    let base = entry_start(b, i);
    LoadSegment {
        offset: le64(b, base + 8) as usize,
        paddr: le64(b, base + 24),
        filesz: le64(b, base + 32) as usize,
    }
}

/// Whether program header `i` is a LOAD segment.
pub open spec fn is_load(b: Seq<u8>, i: int) -> bool {
    le32(b, entry_start(b, i)) == PT_LOAD
}

/// What is wrong with program header `i`, if anything.
pub open spec fn entry_error(b: Seq<u8>, i: int) -> Option<ElfError> {
    let base = entry_start(b, i);
    let seg = segment_at(b, i);
    if base > usize::MAX {
        Some(ElfError::HeaderOffsetOverflow)
    } else if base + entry_size(b) > usize::MAX {
        Some(ElfError::HeaderEndOverflow)
    } else if base + entry_size(b) > b.len() {
        Some(ElfError::HeaderPastEof(i as usize))
    } else if !is_load(b, i) {
        None
    } else if seg.offset + seg.filesz > usize::MAX {
        Some(ElfError::LoadRangeOverflow)
    } else if seg.offset + seg.filesz > b.len() {
        Some(ElfError::LoadPastEof(i as usize))
    } else {
        None
    }
}

/// What is wrong with the first bad header among the first `n`, if any is.
pub open spec fn first_entry_error(b: Seq<u8>, n: nat) -> Option<ElfError>
    decreases n,
{
    if n == 0 {
        None
    } else {
        match first_entry_error(b, (n - 1) as nat) {
            Some(e) => Some(e),
            None => entry_error(b, n - 1),
        }
    }
}

/// The LOAD segments with file bytes among the first `n` headers, in file order.
pub open spec fn loads(b: Seq<u8>, n: nat) -> Seq<LoadSegment>
    decreases n,
{
    if n == 0 {
        Seq::empty()
    } else {
        let before = loads(b, (n - 1) as nat);
        if is_load(b, n - 1) && segment_at(b, n - 1).filesz > 0 {
            before.push(segment_at(b, n - 1))
        } else {
            before
        }
    }
}

/// The lowest load address.
pub open spec fn lowest_paddr(segs: Seq<LoadSegment>) -> u64
    decreases segs.len(),
{
    if segs.len() <= 1 {
        segs[0].paddr
    } else {
        let rest = lowest_paddr(segs.drop_last());
        if segs.last().paddr < rest {
            segs.last().paddr
        } else {
            rest
        }
    }
}

/// Where a segment starts in the flattened image.
pub open spec fn position(seg: LoadSegment, base: u64) -> usize {
    ((seg.paddr - base) as u64) as usize
}

/// The length of the image that holds `segs`: where the furthest segment ends.
pub open spec fn extent(segs: Seq<LoadSegment>, base: u64) -> int
    decreases segs.len(),
{
    if segs.len() == 0 {
        0
    } else {
        let rest = extent(segs.drop_last(), base);
        let end = position(segs.last(), base) + segs.last().filesz;
        if end > rest {
            end
        } else {
            rest
        }
    }
}

/// Byte `k` of the image: from the last segment that covers it, zero where none does.
pub open spec fn image_byte(b: Seq<u8>, segs: Seq<LoadSegment>, base: u64, k: int) -> u8
    decreases segs.len(),
{
    if segs.len() == 0 {
        0
    } else {
        let s = segs.last();
        let at = position(s, base);
        if at <= k < at + s.filesz {
            b[s.offset + k - at]
        } else {
            image_byte(b, segs.drop_last(), base, k)
        }
    }
}

/// The flattened image of the ELF file `b`.
pub open spec fn raw_image(b: Seq<u8>) -> Seq<u8> {
    let segs = loads(b, entry_count(b) as nat);
    let base = lowest_paddr(segs);
    Seq::new(extent(segs, base) as nat, |k: int| image_byte(b, segs, base, k))
}

/// Why the ELF file `b` cannot be flattened, if it cannot: the first rule that it breaks.
pub open spec fn flatten_error(b: Seq<u8>) -> Option<ElfError> {
    let segs = loads(b, entry_count(b) as nat);
    if b.len() <= 4 || b[4] != 2 {
        Some(ElfError::NotElf64)
    } else if b.len() <= 5 || b[5] != 1 {
        Some(ElfError::NotLittleEndian)
    } else if b.len() < 20 {
        Some(ElfError::ShortRead(18))
    } else if le16(b, 18) != MACHINE_AARCH64 {
        Some(ElfError::WrongMachine(le16(b, 18)))
    } else if b.len() < 40 {
        Some(ElfError::ShortRead(32))
    } else if b.len() < 56 {
        Some(ElfError::ShortRead(54))
    } else if b.len() < 58 {
        Some(ElfError::ShortRead(56))
    } else if entry_size(b) < PROGRAM_HEADER_SIZE {
        Some(ElfError::HeaderTooSmall(entry_size(b)))
    } else if first_entry_error(b, entry_count(b) as nat) is Some {
        first_entry_error(b, entry_count(b) as nat)
    } else if segs.len() == 0 {
        Some(ElfError::NoLoadableSegments)
    } else if extent(segs, lowest_paddr(segs)) > usize::MAX {
        Some(ElfError::ImageSizeOverflow)
    } else {
        None
    }
}

// ---------------------------------------------------------------------------------------------
// Facts about the model
// ---------------------------------------------------------------------------------------------
/// One bad header makes the whole table bad.
proof fn lemma_first_error_sticks(b: Seq<u8>, m: nat, n: nat)
    requires
        m <= n,
        first_entry_error(b, m) is Some,
    ensures
        first_entry_error(b, n) == first_entry_error(b, m),
    decreases n,
{
    if m < n {
        lemma_first_error_sticks(b, m, (n - 1) as nat);
    }
}

/// In a good table every collected segment has file bytes, and they lie in the file.
proof fn lemma_loads_in_file(b: Seq<u8>, n: nat)
    requires
        first_entry_error(b, n) is None,
    ensures
        forall|j: int|
            0 <= j < loads(b, n).len() ==> {
                let s = #[trigger] loads(b, n)[j];
                s.filesz > 0 && s.offset + s.filesz <= b.len()
            },
    decreases n,
{
    if n > 0 {
        assert(first_entry_error(b, (n - 1) as nat) is None);
        lemma_loads_in_file(b, (n - 1) as nat);
        assert(entry_error(b, n - 1) is None);
        let before = loads(b, (n - 1) as nat);
        assert forall|j: int| 0 <= j < loads(b, n).len() implies {
            let s = #[trigger] loads(b, n)[j];
            s.filesz > 0 && s.offset + s.filesz <= b.len()
        } by {
            if j < before.len() {
                assert(loads(b, n)[j] == before[j]);
            }
        }
    }
}

/// The lowest address is no higher than any.
proof fn lemma_lowest(segs: Seq<LoadSegment>, j: int)
    requires
        0 <= j < segs.len(),
    ensures
        lowest_paddr(segs) <= segs[j].paddr,
    decreases segs.len(),
{
    if segs.len() > 1 && j < segs.len() - 1 {
        lemma_lowest(segs.drop_last(), j);
        assert(segs.drop_last()[j] == segs[j]);
    }
}

/// Every segment ends inside the image.
proof fn lemma_extent_covers(segs: Seq<LoadSegment>, base: u64, j: int)
    requires
        0 <= j < segs.len(),
    ensures
        position(segs[j], base) + segs[j].filesz <= extent(segs, base),
    decreases segs.len(),
{
    if j < segs.len() - 1 {
        lemma_extent_covers(segs.drop_last(), base, j);
        assert(segs.drop_last()[j] == segs[j]);
    }
}

// ---------------------------------------------------------------------------------------------
// Flattening
// ---------------------------------------------------------------------------------------------
/// Collect the LOAD segments of a kernel whose program-header entries are large enough.
fn collect_loads(bytes: &[u8], phoff: usize, phentsize: usize, phnum: usize) -> (r: Result<
    Vec<LoadSegment>,
    ElfError,
>)
    requires
        phoff == table_offset(bytes@),
        phentsize == entry_size(bytes@),
        phnum == entry_count(bytes@),
        PROGRAM_HEADER_SIZE <= phentsize <= 0xffff,
        phnum <= 0xffff,
    ensures
        match r {
            Ok(v) => {
                &&& first_entry_error(bytes@, phnum as nat) is None
                &&& v@ == loads(bytes@, phnum as nat)
            },
            Err(e) => first_entry_error(bytes@, phnum as nat) == Some(e),
        },
{
    let mut found: Vec<LoadSegment> = Vec::new();
    let mut index: usize = 0;
    while index < phnum
        invariant
            phoff == table_offset(bytes@),
            phentsize == entry_size(bytes@),
            PROGRAM_HEADER_SIZE <= phentsize <= 0xffff,
            index <= phnum <= 0xffff,
            first_entry_error(bytes@, index as nat) is None,
            found@ == loads(bytes@, index as nat),
        decreases phnum - index,
    {
        let ghost next = (index + 1) as nat;
        proof {
            assert(0 <= index * phentsize <= 0xfffe * 0xffff) by (nonlinear_arith)
                requires
                    0 <= index <= 0xfffe,
                    0 <= phentsize <= 0xffff,
            ;
            if first_entry_error(bytes@, next) is Some {
                lemma_first_error_sticks(bytes@, next, phnum as nat);
            }
        }
        let skip: usize = index * phentsize;
        let base: usize = match phoff.checked_add(skip) {
            Some(base) => base,
            None => return Err(ElfError::HeaderOffsetOverflow),
        };
        let end: usize = match base.checked_add(phentsize) {
            Some(end) => end,
            None => return Err(ElfError::HeaderEndOverflow),
        };
        if end > bytes.len() {
            return Err(ElfError::HeaderPastEof(index));
        }
        let p_type: u32 = read_u32_le(bytes, base)?;
        if p_type == PT_LOAD {
            let offset: usize = read_u64_le(bytes, base + 8)? as usize;
            let paddr: u64 = read_u64_le(bytes, base + 24)?;
            let filesz: usize = read_u64_le(bytes, base + 32)? as usize;
            let file_end: usize = match offset.checked_add(filesz) {
                Some(file_end) => file_end,
                None => return Err(ElfError::LoadRangeOverflow),
            };
            if file_end > bytes.len() {
                return Err(ElfError::LoadPastEof(index));
            }
            if filesz > 0 {
                found.push(LoadSegment { offset, paddr, filesz });
            }
        }
        index = index + 1;
    }
    Ok(found)
}

/// The lowest load address of a non-empty list.
fn lowest_address(segs: &Vec<LoadSegment>) -> (r: u64)
    requires
        segs@.len() > 0,
    ensures
        r == lowest_paddr(segs@),
{
    let mut low: u64 = segs[0].paddr;
    let mut i: usize = 1;
    assert(segs@.take(1)[0] == segs@[0]);
    while i < segs.len()
        invariant
            1 <= i <= segs@.len(),
            low == lowest_paddr(segs@.take(i as int)),
        decreases segs@.len() - i,
    {
        assert(segs@.take(i + 1).drop_last() =~= segs@.take(i as int));
        if segs[i].paddr < low {
            low = segs[i].paddr;
        }
        i = i + 1;
    }
    assert(segs@.take(i as int) =~= segs@);
    low
}

/// The length of the image that holds `segs`.
fn image_extent(segs: &Vec<LoadSegment>, base: u64) -> (r: Result<usize, ElfError>)
    requires
        forall|j: int| 0 <= j < segs@.len() ==> base <= (#[trigger] segs@[j]).paddr,
    ensures
        match r {
            Ok(n) => n == extent(segs@, base),
            Err(e) => e == ElfError::ImageSizeOverflow && extent(segs@, base) > usize::MAX,
        },
{
    let mut len: usize = 0;
    let mut i: usize = 0;
    while i < segs.len()
        invariant
            i <= segs@.len(),
            len == extent(segs@.take(i as int), base),
            forall|j: int| 0 <= j < segs@.len() ==> base <= (#[trigger] segs@[j]).paddr,
        decreases segs@.len() - i,
    {
        let seg = segs[i];
        let rel: usize = (seg.paddr - base) as usize;
        assert(segs@.take(i + 1).drop_last() =~= segs@.take(i as int));
        let end: usize = match rel.checked_add(seg.filesz) {
            Some(end) => end,
            None => {
                proof {
                    lemma_extent_covers(segs@, base, i as int);
                }
                return Err(ElfError::ImageSizeOverflow);
            },
        };
        if end > len {
            len = end;
        }
        i = i + 1;
    }
    assert(segs@.take(i as int) =~= segs@);
    Ok(len)
}

/// Copy `seg`'s file bytes into the image at `rel`.
fn place(image: &mut Vec<u8>, bytes: &[u8], seg: LoadSegment, rel: usize)
    requires
        rel + seg.filesz <= old(image)@.len(),
        seg.offset + seg.filesz <= bytes@.len(),
    ensures
        final(image)@.len() == old(image)@.len(),
        forall|k: int|
            0 <= k < final(image)@.len() ==> #[trigger] final(image)@[k] == if rel <= k < rel
                + seg.filesz {
                bytes@[seg.offset + k - rel]
            } else {
                old(image)@[k]
            },
{
    let ghost start = image@;
    let mut j: usize = 0;
    while j < seg.filesz
        invariant
            j <= seg.filesz,
            image@.len() == start.len(),
            rel + seg.filesz <= image.len(),
            seg.offset + seg.filesz <= bytes.len(),
            forall|k: int|
                0 <= k < image@.len() ==> #[trigger] image@[k] == if rel <= k < rel + j {
                    bytes@[seg.offset + k - rel]
                } else {
                    start[k]
                },
        decreases seg.filesz - j,
    {
        image.set(rel + j, bytes[seg.offset + j]);
        j = j + 1;
    }
}

/// Lay the segments out in order, later ones over earlier ones, zeros where none lies.
fn lay_out(bytes: &[u8], segs: &Vec<LoadSegment>, base: u64, len: usize) -> (image: Vec<u8>)
    requires
        len == extent(segs@, base),
        forall|j: int|
            0 <= j < segs@.len() ==> {
                let s = #[trigger] segs@[j];
                base <= s.paddr && s.offset + s.filesz <= bytes@.len()
            },
    ensures
        image@ == Seq::new(len as nat, |k: int| image_byte(bytes@, segs@, base, k)),
{
    let mut image: Vec<u8> = vec![0u8; len];
    let mut i: usize = 0;
    assert(segs@.take(0) =~= Seq::<LoadSegment>::empty());
    while i < segs.len()
        invariant
            i <= segs@.len(),
            len == extent(segs@, base),
            image@.len() == len,
            forall|j: int|
                0 <= j < segs@.len() ==> {
                    let s = #[trigger] segs@[j];
                    base <= s.paddr && s.offset + s.filesz <= bytes@.len()
                },
            forall|k: int|
                0 <= k < len ==> #[trigger] image@[k] == image_byte(
                    bytes@,
                    segs@.take(i as int),
                    base,
                    k,
                ),
        decreases segs@.len() - i,
    {
        let seg = segs[i];
        let rel: usize = (seg.paddr - base) as usize;
        proof {
            lemma_extent_covers(segs@, base, i as int);
            assert(segs@.take(i + 1).drop_last() =~= segs@.take(i as int));
            assert(segs@.take(i + 1).last() == seg);
        }
        place(&mut image, bytes, seg, rel);
        i = i + 1;
    }
    assert(segs@.take(i as int) =~= segs@);
    assert(image@ =~= Seq::new(len as nat, |k: int| image_byte(bytes@, segs@, base, k)));
    image
}

/// Flatten an ELF64 AArch64 kernel into a raw image: `None` for a file that is not ELF at all
/// (it is taken as a raw image already), otherwise each LOAD segment's file bytes at its physical
/// address relative to the lowest one.
pub fn elf64_aarch64_to_raw_image(bytes: &[u8]) -> (r: Result<Option<Vec<u8>>, ElfError>)
    ensures
        match r {
            Ok(None) => !is_elf(bytes@),
            Ok(Some(image)) => is_elf(bytes@) && flatten_error(bytes@) is None && image@
                == raw_image(bytes@),
            Err(e) => is_elf(bytes@) && flatten_error(bytes@) == Some(e),
        },
{
    if bytes.len() < 4 || bytes[0] != 0x7f || bytes[1] != 0x45 || bytes[2] != 0x4c || bytes[3]
        != 0x46 {
        return Ok(None);
    }
    if bytes.len() <= 4 || bytes[4] != 2 {
        return Err(ElfError::NotElf64);
    }
    if bytes.len() <= 5 || bytes[5] != 1 {
        return Err(ElfError::NotLittleEndian);
    }
    let machine: u16 = read_u16_le(bytes, 18)?;
    if machine != MACHINE_AARCH64 {
        return Err(ElfError::WrongMachine(machine));
    }
    let phoff: usize = read_u64_le(bytes, 32)? as usize;
    let phentsize: usize = read_u16_le(bytes, 54)? as usize;
    let phnum: usize = read_u16_le(bytes, 56)? as usize;
    if phentsize < PROGRAM_HEADER_SIZE {
        return Err(ElfError::HeaderTooSmall(phentsize));
    }
    let segs = collect_loads(bytes, phoff, phentsize, phnum)?;
    if segs.len() == 0 {
        return Err(ElfError::NoLoadableSegments);
    }
    let base: u64 = lowest_address(&segs);
    proof {
        lemma_loads_in_file(bytes@, phnum as nat);
        assert forall|j: int| 0 <= j < segs@.len() implies base <= (#[trigger] segs@[j]).paddr by {
            lemma_lowest(segs@, j);
        }
    }
    let len: usize = image_extent(&segs, base)?;
    Ok(Some(lay_out(bytes, &segs, base, len)))
}

// ---------------------------------------------------------------------------------------------
// Laws
// ---------------------------------------------------------------------------------------------
/// A single LOAD segment flattens to exactly its file bytes.
pub proof fn one_segment_is_its_file_bytes(b: Seq<u8>, seg: LoadSegment)
    requires
        seg.offset + seg.filesz <= b.len(),
    ensures
        ({
            let segs = seq![seg];
            let base = lowest_paddr(segs);
            Seq::new(extent(segs, base) as nat, |k: int| image_byte(b, segs, base, k)) == b.subrange(
                seg.offset as int,
                seg.offset + seg.filesz,
            )
        }),
{
    let segs = seq![seg];
    let base = lowest_paddr(segs);
    assert(segs.drop_last() =~= Seq::<LoadSegment>::empty());
    assert(base == seg.paddr);
    assert(position(seg, base) == 0);
    reveal_with_fuel(extent, 2);
    assert(extent(segs, base) == seg.filesz);
    assert(Seq::new(extent(segs, base) as nat, |k: int| image_byte(b, segs, base, k)) =~= b.subrange(
        seg.offset as int,
        seg.offset + seg.filesz,
    ));
}

/// Where the last segment of the table lies, the image holds that segment's file bytes: a later
/// segment overwrites an earlier one, never the other way round.
pub proof fn last_segment_wins(b: Seq<u8>, segs: Seq<LoadSegment>, base: u64, k: int)
    requires
        segs.len() > 0,
        position(segs.last(), base) <= k < position(segs.last(), base) + segs.last().filesz,
    ensures
        image_byte(b, segs, base, k) == b[segs.last().offset + k - position(segs.last(), base)],
        k < extent(segs, base),
{
}

/// A byte of the image that no segment covers is zero.
pub proof fn uncovered_bytes_are_zero(b: Seq<u8>, segs: Seq<LoadSegment>, base: u64, k: int)
    requires
        forall|j: int|
            0 <= j < segs.len() ==> {
                let s = #[trigger] segs[j];
                !(position(s, base) <= k < position(s, base) + s.filesz)
            },
    ensures
        image_byte(b, segs, base, k) == 0,
    decreases segs.len(),
{
    if segs.len() > 0 {
        assert(segs.last() == segs[segs.len() - 1]);
        assert forall|j: int| 0 <= j < segs.drop_last().len() implies {
            let s = #[trigger] segs.drop_last()[j];
            !(position(s, base) <= k < position(s, base) + s.filesz)
        } by {
            assert(segs.drop_last()[j] == segs[j]);
        }
        uncovered_bytes_are_zero(b, segs.drop_last(), base, k);
    }
}

/// Whether byte `j` is one of the file header that flattening reads.
pub open spec fn is_header_byte(j: int) -> bool {
    0 <= j < 6 || 18 <= j < 20 || 32 <= j < 40 || 54 <= j < 58
}

/// Whether byte `j` belongs to the virtual address, the physical address or the memory size of a
/// LOAD segment's program header.
pub open spec fn is_placement_byte(b: Seq<u8>, j: int) -> bool {
    exists|i: int|
        0 <= i < entry_count(b) && #[trigger] is_load(b, i) && (entry_start(b, i) + 16 <= j
            < entry_start(b, i) + 32 || entry_start(b, i) + 40 <= j < entry_start(b, i) + 48)
}

/// Whether `c` is `b` with every LOAD segment moved by `shift` in physical memory. Virtual addresses
/// and memory sizes may differ too; everything else is the same, the fields of the file header among
/// it.
pub open spec fn relocated(b: Seq<u8>, c: Seq<u8>, shift: int) -> bool {
    &&& c.len() == b.len()
    &&& forall|j: int| 0 <= j < b.len() && is_header_byte(j) ==> #[trigger] c[j] == b[j]
    &&& forall|j: int| 0 <= j < b.len() && !is_placement_byte(b, j) ==> #[trigger] c[j] == b[j]
    &&& forall|i: int|
        0 <= i < entry_count(b) && #[trigger] is_load(b, i) ==> le64(c, entry_start(b, i) + 24)
            == le64(b, entry_start(b, i) + 24) + shift
}

/// Whether no LOAD segment's file bytes lie over a placement byte.
pub open spec fn placements_lie_apart(b: Seq<u8>) -> bool {
    forall|i: int, j: int|
        0 <= i < entry_count(b) && #[trigger] is_load(b, i) && segment_at(b, i).offset <= j
            < segment_at(b, i).offset + segment_at(b, i).filesz ==> !#[trigger] is_placement_byte(
            b,
            j,
        )
}

/// The image depends on relative physical addresses only: moving all LOAD segments by one constant
/// gives the same image.
pub proof fn relocation_keeps_the_image(b: Seq<u8>, c: Seq<u8>, shift: int)
    requires
        is_elf(b),
        flatten_error(b) is None,
        relocated(b, c, shift),
        placements_lie_apart(b),
    ensures
        is_elf(c),
        flatten_error(c) is None,
        raw_image(c) == raw_image(b),
{
    let n = entry_count(b) as nat;
    lemma_same_file_header(b, c, shift);
    lemma_moved_loads(b, c, shift, n);
    lemma_moved_image(b, c, loads(b, n), loads(c, n), shift);
    assert(raw_image(c) =~= raw_image(b));
}

/// The fields of the file header are read alike.
proof fn lemma_same_file_header(b: Seq<u8>, c: Seq<u8>, shift: int)
    requires
        relocated(b, c, shift),
        b.len() >= 58,
    ensures
        is_elf(c) == is_elf(b),
        c[4] == b[4],
        c[5] == b[5],
        le16(c, 18) == le16(b, 18),
        table_offset(c) == table_offset(b),
        entry_size(c) == entry_size(b),
        entry_count(c) == entry_count(b),
{
    assert forall|j: int| 0 <= j < 58 && is_header_byte(j) implies #[trigger] c[j] == b[j] by {}
}

proof fn lemma_moved_image(
    b: Seq<u8>,
    c: Seq<u8>,
    from: Seq<LoadSegment>,
    to: Seq<LoadSegment>,
    shift: int,
)
    requires
        from.len() > 0,
        moved_by(from, to, shift),
        forall|j: int| 0 <= j < from.len() ==> same_file_bytes(b, c, #[trigger] from[j]),
    ensures
        extent(to, lowest_paddr(to)) == extent(from, lowest_paddr(from)),
        forall|k: int|
            image_byte(c, to, lowest_paddr(to), k) == #[trigger] image_byte(
                b,
                from,
                lowest_paddr(from),
                k,
            ),
{
    let base = lowest_paddr(from);
    let moved = lowest_paddr(to);
    lemma_moved_lowest(from, to, shift);
    assert forall|j: int| 0 <= j < from.len() implies position(to[j], moved) == position(
        #[trigger] from[j],
        base,
    ) by {
        assert(to[j].paddr - moved == from[j].paddr - base);
    }
    lemma_moved_extent(from, to, base, moved);
    assert forall|k: int| image_byte(c, to, moved, k) == #[trigger] image_byte(b, from, base, k) by {
        lemma_moved_byte(b, c, from, to, base, moved, k);
    }
}

/// Whether `to` are the segments `from`, each moved by `shift`.
spec fn moved_by(from: Seq<LoadSegment>, to: Seq<LoadSegment>, shift: int) -> bool {
    &&& to.len() == from.len()
    &&& forall|j: int|
        #![trigger from[j]]
        #![trigger to[j]]
        0 <= j < from.len() ==> to[j].offset == from[j].offset && to[j].filesz == from[j].filesz
            && to[j].paddr == from[j].paddr + shift
}

/// A program header's fields other than its placement are kept.
proof fn lemma_kept_byte(b: Seq<u8>, c: Seq<u8>, shift: int, i: int, d: int)
    requires
        relocated(b, c, shift),
        entry_size(b) >= PROGRAM_HEADER_SIZE,
        0 <= i < entry_count(b),
        entry_start(b, i) + entry_size(b) <= b.len(),
        0 <= d < 16 || 32 <= d < 40,
    ensures
        c[entry_start(b, i) + d] == b[entry_start(b, i) + d],
{
    let at = entry_start(b, i) + d;
    let size = entry_size(b) as int;
    assert(0 <= i * size) by (nonlinear_arith)
        requires
            0 <= i,
            0 <= size,
    ;
    if is_placement_byte(b, at) {
        let o = choose|o: int|
            0 <= o < entry_count(b) && #[trigger] is_load(b, o) && (entry_start(b, o) + 16 <= at
                < entry_start(b, o) + 32 || entry_start(b, o) + 40 <= at < entry_start(b, o) + 48);
        if o < i {
            assert(o * size + size <= i * size) by (nonlinear_arith)
                requires
                    o + 1 <= i,
                    0 <= size,
            ;
        } else if i < o {
            assert(i * size + size <= o * size) by (nonlinear_arith)
                requires
                    i + 1 <= o,
                    0 <= size,
            ;
        }
    }
}

/// A program header is read alike but for its placement.
proof fn lemma_kept_entry(b: Seq<u8>, c: Seq<u8>, shift: int, i: int)
    requires
        relocated(b, c, shift),
        entry_size(b) >= PROGRAM_HEADER_SIZE,
        table_offset(c) == table_offset(b),
        entry_size(c) == entry_size(b),
        0 <= i < entry_count(b),
        entry_error(b, i) is None,
    ensures
        entry_error(c, i) is None,
        is_load(c, i) == is_load(b, i),
        segment_at(c, i).offset == segment_at(b, i).offset,
        segment_at(c, i).filesz == segment_at(b, i).filesz,
        is_load(b, i) ==> segment_at(c, i).paddr == segment_at(b, i).paddr + shift,
{
    let at = entry_start(b, i);
    assert(entry_start(c, i) == at);
    lemma_kept_byte(b, c, shift, i, 0);
    lemma_kept_byte(b, c, shift, i, 1);
    lemma_kept_byte(b, c, shift, i, 2);
    lemma_kept_byte(b, c, shift, i, 3);
    assert(is_load(c, i) == is_load(b, i));
    lemma_kept_byte(b, c, shift, i, 8);
    lemma_kept_byte(b, c, shift, i, 9);
    lemma_kept_byte(b, c, shift, i, 10);
    lemma_kept_byte(b, c, shift, i, 11);
    lemma_kept_byte(b, c, shift, i, 12);
    lemma_kept_byte(b, c, shift, i, 13);
    lemma_kept_byte(b, c, shift, i, 14);
    lemma_kept_byte(b, c, shift, i, 15);
    assert(le64(c, at + 8) == le64(b, at + 8));
    lemma_kept_byte(b, c, shift, i, 32);
    lemma_kept_byte(b, c, shift, i, 33);
    lemma_kept_byte(b, c, shift, i, 34);
    lemma_kept_byte(b, c, shift, i, 35);
    lemma_kept_byte(b, c, shift, i, 36);
    lemma_kept_byte(b, c, shift, i, 37);
    lemma_kept_byte(b, c, shift, i, 38);
    lemma_kept_byte(b, c, shift, i, 39);
    assert(le64(c, at + 32) == le64(b, at + 32));
}

/// Whether a segment's file bytes are the same in two files.
spec fn same_file_bytes(b: Seq<u8>, c: Seq<u8>, seg: LoadSegment) -> bool {
    forall|x: int| seg.offset <= x < seg.offset + seg.filesz ==> c[x] == #[trigger] b[x]
}

proof fn lemma_load_bytes_are_kept(b: Seq<u8>, c: Seq<u8>, shift: int, i: int)
    requires
        relocated(b, c, shift),
        placements_lie_apart(b),
        0 <= i < entry_count(b),
        is_load(b, i),
        entry_error(b, i) is None,
    ensures
        same_file_bytes(b, c, segment_at(b, i)),
{
    let seg = segment_at(b, i);
    assert forall|x: int| seg.offset <= x < seg.offset + seg.filesz implies c[x]
        == #[trigger] b[x] by {
        assert(!is_placement_byte(b, x));
    }
}

/// Whether the segments `to` of the file `c` are the segments `from` of the file `b`, each moved by
/// `shift` with its bytes kept.
spec fn moved_with_bytes(
    b: Seq<u8>,
    c: Seq<u8>,
    from: Seq<LoadSegment>,
    to: Seq<LoadSegment>,
    shift: int,
) -> bool {
    &&& moved_by(from, to, shift)
    &&& forall|j: int| 0 <= j < from.len() ==> same_file_bytes(b, c, #[trigger] from[j])
}

proof fn lemma_moved_push(
    b: Seq<u8>,
    c: Seq<u8>,
    from: Seq<LoadSegment>,
    to: Seq<LoadSegment>,
    shift: int,
    f: LoadSegment,
    t: LoadSegment,
)
    requires
        moved_with_bytes(b, c, from, to, shift),
        t.offset == f.offset,
        t.filesz == f.filesz,
        t.paddr == f.paddr + shift,
        same_file_bytes(b, c, f),
    ensures
        moved_with_bytes(b, c, from.push(f), to.push(t), shift),
{
    let more = from.push(f);
    assert forall|j: int| 0 <= j < more.len() implies same_file_bytes(b, c, #[trigger] more[j]) by {
        if j < from.len() {
            assert(more[j] == from[j]);
        }
    }
}

#[verifier::spinoff_prover]
proof fn lemma_moved_loads(b: Seq<u8>, c: Seq<u8>, shift: int, n: nat)
    requires
        relocated(b, c, shift),
        placements_lie_apart(b),
        entry_size(b) >= PROGRAM_HEADER_SIZE,
        table_offset(c) == table_offset(b),
        entry_size(c) == entry_size(b),
        n <= entry_count(b),
        first_entry_error(b, n) is None,
    ensures
        first_entry_error(c, n) is None,
        moved_with_bytes(b, c, loads(b, n), loads(c, n), shift),
    decreases n,
{
    if n > 0 {
        let m = (n - 1) as nat;
        let i = n - 1;
        assert(first_entry_error(b, m) is None && entry_error(b, i) is None);
        lemma_moved_loads(b, c, shift, m);
        lemma_kept_entry(b, c, shift, i);
        assert(first_entry_error(c, n) is None);
        if is_load(b, i) && segment_at(b, i).filesz > 0 {
            lemma_load_bytes_are_kept(b, c, shift, i);
            lemma_moved_push(
                b,
                c,
                loads(b, m),
                loads(c, m),
                shift,
                segment_at(b, i),
                segment_at(c, i),
            );
            assert(loads(b, n) == loads(b, m).push(segment_at(b, i)));
            assert(loads(c, n) == loads(c, m).push(segment_at(c, i)));
        } else {
            assert(loads(b, n) == loads(b, m));
            assert(loads(c, n) == loads(c, m));
        }
    }
}

proof fn lemma_moved_lowest(from: Seq<LoadSegment>, to: Seq<LoadSegment>, shift: int)
    requires
        from.len() > 0,
        moved_by(from, to, shift),
    ensures
        lowest_paddr(to) == lowest_paddr(from) + shift,
    decreases from.len(),
{
    assert(to[0].paddr == from[0].paddr + shift);
    if from.len() > 1 {
        assert forall|j: int| 0 <= j < from.drop_last().len() implies {
            let f = #[trigger] from.drop_last()[j];
            let t = to.drop_last()[j];
            t.offset == f.offset && t.filesz == f.filesz && t.paddr == f.paddr + shift
        } by {
            assert(from.drop_last()[j] == from[j] && to.drop_last()[j] == to[j]);
        }
        lemma_moved_lowest(from.drop_last(), to.drop_last(), shift);
        assert(to.last().paddr == from.last().paddr + shift);
    }
}

/// Whether two rows of segments take the same places, each relative to its own base.
spec fn same_places(
    from: Seq<LoadSegment>,
    to: Seq<LoadSegment>,
    base: u64,
    moved: u64,
) -> bool {
    &&& to.len() == from.len()
    &&& forall|j: int|
        #![trigger from[j]]
        #![trigger to[j]]
        0 <= j < from.len() ==> to[j].offset == from[j].offset && to[j].filesz == from[j].filesz
            && position(to[j], moved) == position(from[j], base)
}

proof fn lemma_same_places_before(
    from: Seq<LoadSegment>,
    to: Seq<LoadSegment>,
    base: u64,
    moved: u64,
)
    requires
        from.len() > 0,
        same_places(from, to, base, moved),
    ensures
        same_places(from.drop_last(), to.drop_last(), base, moved),
        to.last().offset == from.last().offset,
        to.last().filesz == from.last().filesz,
        position(to.last(), moved) == position(from.last(), base),
{
    assert forall|j: int| 0 <= j < from.drop_last().len() implies from.drop_last()[j] == #[trigger] from[j]
        && to.drop_last()[j] == to[j] by {}
    assert(from.last() == from[from.len() - 1]);
    assert(to.last() == to[to.len() - 1]);
}

proof fn lemma_moved_extent(
    from: Seq<LoadSegment>,
    to: Seq<LoadSegment>,
    base: u64,
    moved: u64,
)
    requires
        same_places(from, to, base, moved),
    ensures
        extent(to, moved) == extent(from, base),
    decreases from.len(),
{
    if from.len() > 0 {
        lemma_same_places_before(from, to, base, moved);
        lemma_moved_extent(from.drop_last(), to.drop_last(), base, moved);
    }
}

proof fn lemma_moved_byte(
    b: Seq<u8>,
    c: Seq<u8>,
    from: Seq<LoadSegment>,
    to: Seq<LoadSegment>,
    base: u64,
    moved: u64,
    k: int,
)
    requires
        same_places(from, to, base, moved),
        forall|j: int| 0 <= j < from.len() ==> same_file_bytes(b, c, #[trigger] from[j]),
    ensures
        image_byte(c, to, moved, k) == image_byte(b, from, base, k),
    decreases from.len(),
{
    if from.len() > 0 {
        lemma_same_places_before(from, to, base, moved);
        let seg = from.last();
        let at = position(seg, base);
        if at <= k < at + seg.filesz {
            assert(same_file_bytes(b, c, from[from.len() - 1]));
            assert(c[seg.offset + k - at] == b[seg.offset + k - at]);
        } else {
            assert forall|j: int| 0 <= j < from.drop_last().len() implies same_file_bytes(
                b,
                c,
                #[trigger] from.drop_last()[j],
            ) by {
                assert(from.drop_last()[j] == from[j]);
            }
            lemma_moved_byte(b, c, from.drop_last(), to.drop_last(), base, moved, k);
        }
    }
}

// ---------------------------------------------------------------------------------------------
// What the calls come to
// ---------------------------------------------------------------------------------------------
/// Fields are read with their least significant byte first, and only where they lie in the file.
pub proof fn fields_are_little_endian(
    bytes: &[u8],
    o: usize,
    half: Result<u16, ElfError>,
    word: Result<u32, ElfError>,
    long: Result<u64, ElfError>,
)
    requires
        o + 8 <= usize::MAX,
        call_ensures(read_u16_le, (bytes, o), half),
        call_ensures(read_u32_le, (bytes, o), word),
        call_ensures(read_u64_le, (bytes, o), long),
    ensures
        half is Ok <==> o + 2 <= bytes@.len(),
        word is Ok <==> o + 4 <= bytes@.len(),
        long is Ok <==> o + 8 <= bytes@.len(),
        half matches Ok(n) ==> n == bytes@[o as int] + 0x100 * bytes@[o + 1],
        word matches Ok(n) ==> n == bytes@[o as int] + 0x100 * bytes@[o + 1] + 0x1_0000 * bytes@[o
            + 2] + 0x100_0000 * bytes@[o + 3],
        long matches Ok(n) ==> n == bytes@[o as int] + 0x100 * bytes@[o + 1] + 0x1_0000 * bytes@[o
            + 2] + 0x100_0000 * bytes@[o + 3] + 0x1_0000_0000 * bytes@[o + 4] + 0x100_0000_0000
            * bytes@[o + 5] + 0x1_0000_0000_0000 * bytes@[o + 6] + 0x100_0000_0000_0000 * bytes@[o
            + 7],
        half matches Err(e) ==> e == ElfError::ShortRead(o),
{
}

/// Which files are flattened: one without the ELF magic is taken as it is; an ELF file has to be of 64
/// bits, little-endian and for AArch64, with program headers of at least 56 bytes.
pub proof fn only_aarch64_kernels_are_flattened(
    bytes: &[u8],
    r: Result<Option<Vec<u8>>, ElfError>,
)
    requires
        call_ensures(elf64_aarch64_to_raw_image, (bytes,), r),
    ensures
        ({
            let b = bytes@;
            let magic = b.len() >= 4 && b[0] == 0x7f && b[1] == 0x45 && b[2] == 0x4c && b[3]
                == 0x46;
            &&& (r matches Ok(None)) <==> !magic
            &&& magic && (b.len() <= 4 || b[4] != 2) ==> r == Err::<Option<Vec<u8>>, _>(
                ElfError::NotElf64,
            )
            &&& r matches Ok(Some(_)) ==> b.len() >= 58 && b[4] == 2 && b[5] == 1 && b[18] + 0x100
                * b[19] == 183 && b[54] + 0x100 * b[55] >= 56
            &&& magic && b.len() >= 20 && b[4] == 2 && b[5] == 1 && b[18] + 0x100 * b[19] != 183
                ==> r == Err::<Option<Vec<u8>>, _>(
                ElfError::WrongMachine((b[18] + 0x100 * b[19]) as u16),
            )
        }),
{
}

proof fn lemma_covered_by_header(b: Seq<u8>, n: nat, base: u64, i: int, k: int)
    requires
        0 <= i < n,
        is_load(b, i),
        segment_at(b, i).filesz > 0,
        position(segment_at(b, i), base) <= k < position(segment_at(b, i), base) + segment_at(
            b,
            i,
        ).filesz,
        forall|j: int|
            i < j < n && #[trigger] is_load(b, j) ==> !(position(segment_at(b, j), base) <= k
                < position(segment_at(b, j), base) + segment_at(b, j).filesz),
    ensures
        image_byte(b, loads(b, n), base, k) == b[segment_at(b, i).offset + k - position(
            segment_at(b, i),
            base,
        )],
        k < extent(loads(b, n), base),
    decreases n,
{
    let before = loads(b, (n - 1) as nat);
    if n - 1 > i {
        lemma_covered_by_header(b, (n - 1) as nat, base, i, k);
        if is_load(b, n - 1) && segment_at(b, n - 1).filesz > 0 {
            assert(loads(b, n).drop_last() =~= before);
        }
    } else {
        assert(loads(b, n).last() == segment_at(b, i));
    }
}

proof fn lemma_header_is_loaded(b: Seq<u8>, n: nat, i: int) -> (j: int)
    requires
        0 <= i < n,
        is_load(b, i),
        segment_at(b, i).filesz > 0,
    ensures
        0 <= j < loads(b, n).len(),
        loads(b, n)[j] == segment_at(b, i),
    decreases n,
{
    let before = loads(b, (n - 1) as nat);
    if n - 1 > i {
        let j = lemma_header_is_loaded(b, (n - 1) as nat, i);
        assert(loads(b, n)[j] == before[j]);
        j
    } else {
        before.len() as int
    }
}

proof fn lemma_loaded_is_a_header(b: Seq<u8>, n: nat, j: int) -> (i: int)
    requires
        0 <= j < loads(b, n).len(),
    ensures
        0 <= i < n,
        is_load(b, i),
        segment_at(b, i).filesz > 0,
        loads(b, n)[j] == segment_at(b, i),
    decreases n,
{
    let before = loads(b, (n - 1) as nat);
    if j < before.len() {
        let i = lemma_loaded_is_a_header(b, (n - 1) as nat, j);
        assert(loads(b, n)[j] == before[j]);
        i
    } else {
        n - 1
    }
}

proof fn lemma_lowest_is_attained(segs: Seq<LoadSegment>) -> (j: int)
    requires
        segs.len() > 0,
    ensures
        0 <= j < segs.len(),
        segs[j].paddr == lowest_paddr(segs),
    decreases segs.len(),
{
    if segs.len() == 1 {
        0
    } else {
        let init = segs.drop_last();
        let j = lemma_lowest_is_attained(init);
        if segs.last().paddr < lowest_paddr(init) {
            segs.len() - 1
        } else {
            assert(segs[j] == init[j]);
            j
        }
    }
}

/// The flattened image is the kernel as it would lie in memory: each LOAD segment with file bytes lies
/// at its physical address, counted from the lowest one, with exactly its file bytes, unless a later
/// segment lies over them. `start` is where program header `i` begins in the file.
pub proof fn segments_lie_at_their_addresses(
    bytes: &[u8],
    image: Vec<u8>,
    i: int,
    start: int,
    lowest: u64,
    k: int,
)
    requires
        call_ensures(elf64_aarch64_to_raw_image, (bytes,), Ok(Some(image))),
        0 <= i < le16(bytes@, 56),
        start == (le64(bytes@, 32) as usize) + i * le16(bytes@, 54),
        le32(bytes@, start) == 1,
        0 <= k < (le64(bytes@, start + 32) as usize),
        // `lowest` is the lowest address of a LOAD segment with file bytes.
        forall|j: int|
            0 <= j < le16(bytes@, 56) && #[trigger] is_load(bytes@, j) && segment_at(
                bytes@,
                j,
            ).filesz > 0 ==> lowest <= segment_at(bytes@, j).paddr,
        exists|j: int|
            0 <= j < le16(bytes@, 56) && #[trigger] is_load(bytes@, j) && segment_at(
                bytes@,
                j,
            ).filesz > 0 && segment_at(bytes@, j).paddr == lowest,
        // No later segment lies over the byte.
        forall|j: int|
            i < j < le16(bytes@, 56) && #[trigger] is_load(bytes@, j) ==> {
                let at = position(segment_at(bytes@, j), lowest);
                let here = ((le64(bytes@, start + 24) - lowest) as u64) as usize;
                !(at <= here + k < at + segment_at(bytes@, j).filesz)
            },
    ensures
        ({
            let here = ((le64(bytes@, start + 24) - lowest) as u64) as usize;
            &&& here + k < image@.len()
            &&& image@[here + k] == bytes@[(le64(bytes@, start + 8) as usize) + k]
        }),
{
    let b = bytes@;
    let n = entry_count(b) as nat;
    let segs = loads(b, n);
    assert(start == entry_start(b, i));
    assert(is_load(b, i));
    let m = lemma_lowest_is_attained(segs);
    let h = lemma_loaded_is_a_header(b, n, m);
    assert(lowest <= segment_at(b, h).paddr);
    let w = choose|j: int|
        0 <= j < n && #[trigger] is_load(b, j) && segment_at(b, j).filesz > 0 && segment_at(
            b,
            j,
        ).paddr == lowest;
    let p = lemma_header_is_loaded(b, n, w);
    lemma_lowest(segs, p);
    assert(lowest_paddr(segs) == lowest);
    let here = position(segment_at(b, i), lowest);
    lemma_covered_by_header(b, n, lowest, i, here + k);
}

proof fn lemma_extent_is_attained(segs: Seq<LoadSegment>, base: u64) -> (j: int)
    requires
        segs.len() > 0,
        forall|j: int| 0 <= j < segs.len() ==> (#[trigger] segs[j]).filesz > 0,
    ensures
        0 <= j < segs.len(),
        extent(segs, base) == position(segs[j], base) + segs[j].filesz,
    decreases segs.len(),
{
    let init = segs.drop_last();
    let last = segs.len() - 1;
    assert(segs[last].filesz > 0);
    if init.len() == 0 {
        assert(extent(init, base) == 0);
        last
    } else {
        assert forall|j: int| 0 <= j < init.len() implies (#[trigger] init[j]).filesz > 0 by {
            assert(init[j] == segs[j]);
        }
        let j = lemma_extent_is_attained(init, base);
        if position(segs[last], base) + segs[last].filesz > extent(init, base) {
            last
        } else {
            assert(init[j] == segs[j]);
            j
        }
    }
}

/// The image is as long as it has to be: some segment ends where it ends, and none beyond it. A byte
/// that no segment covers is zero.
pub proof fn image_ends_with_its_last_segment(bytes: &[u8], image: Vec<u8>, i: int, k: int)
    requires
        call_ensures(elf64_aarch64_to_raw_image, (bytes,), Ok(Some(image))),
        0 <= i < le16(bytes@, 56),
    ensures
        ({
            let b = bytes@;
            let base = lowest_paddr(loads(b, entry_count(b) as nat));
            &&& is_load(b, i) && segment_at(b, i).filesz > 0 ==> position(segment_at(b, i), base)
                + segment_at(b, i).filesz <= image@.len()
            &&& exists|j: int|
                0 <= j < le16(b, 56) && #[trigger] is_load(b, j) && position(
                    segment_at(b, j),
                    base,
                ) + segment_at(b, j).filesz == image@.len()
            &&& 0 <= k < image@.len() && (forall|j: int|
                0 <= j < le16(b, 56) && #[trigger] is_load(b, j) ==> !(position(
                    segment_at(b, j),
                    base,
                ) <= k < position(segment_at(b, j), base) + segment_at(b, j).filesz))
                ==> image@[k] == 0
        }),
{
    let b = bytes@;
    let n = entry_count(b) as nat;
    let segs = loads(b, n);
    let base = lowest_paddr(segs);
    lemma_loads_in_file(b, n);
    if is_load(b, i) && segment_at(b, i).filesz > 0 {
        let p = lemma_header_is_loaded(b, n, i);
        lemma_extent_covers(segs, base, p);
    }
    let m = lemma_extent_is_attained(segs, base);
    let h = lemma_loaded_is_a_header(b, n, m);
    assert(is_load(b, h));
    if 0 <= k < image@.len() && (forall|j: int|
        0 <= j < le16(b, 56) && #[trigger] is_load(b, j) ==> !(position(segment_at(b, j), base) <= k
            < position(segment_at(b, j), base) + segment_at(b, j).filesz)) {
        assert forall|q: int| 0 <= q < segs.len() implies {
            let s = #[trigger] segs[q];
            !(position(s, base) <= k < position(s, base) + s.filesz)
        } by {
            let w = lemma_loaded_is_a_header(b, n, q);
            assert(is_load(b, w));
        }
        uncovered_bytes_are_zero(b, segs, base, k);
    }
}

proof fn lemma_good_headers(b: Seq<u8>, n: nat)
    requires
        forall|i: int|
            0 <= i < n ==> {
                let start = #[trigger] entry_start(b, i);
                &&& start + entry_size(b) <= b.len() <= usize::MAX
                &&& is_load(b, i) ==> segment_at(b, i).offset + segment_at(b, i).filesz <= b.len()
            },
    ensures
        first_entry_error(b, n) is None,
    decreases n,
{
    if n > 0 {
        lemma_good_headers(b, (n - 1) as nat);
        let start = entry_start(b, n - 1);
        assert(start + entry_size(b) <= b.len());
    }
}

/// A good kernel is flattened: where the file header is right, every program header lies in the file,
/// every LOAD segment's bytes lie in the file, one of them has some, and the image fits in memory,
/// there is an image. The other way round, an image comes of such a file only.
pub proof fn good_kernel_is_flattened(
    bytes: &[u8],
    r: Result<Option<Vec<u8>>, ElfError>,
    i: int,
)
    requires
        call_ensures(elf64_aarch64_to_raw_image, (bytes,), r),
        58 <= bytes@.len() <= usize::MAX,
        is_elf(bytes@),
        bytes@[4] == 2,
        bytes@[5] == 1,
        le16(bytes@, 18) == 183,
        le16(bytes@, 54) >= 56,
        0 <= i < le16(bytes@, 56),
    ensures
        ({
            let b = bytes@;
            let segs = loads(b, entry_count(b) as nat);
            let all_lie_in_the_file = forall|j: int|
                0 <= j < le16(b, 56) ==> {
                    let start = #[trigger] entry_start(b, j);
                    &&& start + le16(b, 54) <= b.len()
                    &&& is_load(b, j) ==> segment_at(b, j).offset + segment_at(b, j).filesz
                        <= b.len()
                };
            &&& all_lie_in_the_file && is_load(b, i) && segment_at(b, i).filesz > 0 && extent(
                segs,
                lowest_paddr(segs),
            ) <= usize::MAX ==> (r matches Ok(Some(_)))
            &&& r matches Ok(Some(_)) ==> entry_start(b, i) + le16(b, 54) <= b.len() && (is_load(
                b,
                i,
            ) ==> segment_at(b, i).offset + segment_at(b, i).filesz <= b.len())
        }),
{
    let b = bytes@;
    let n = entry_count(b) as nat;
    if forall|j: int|
        0 <= j < n ==> {
            let start = #[trigger] entry_start(b, j);
            &&& start + le16(b, 54) <= b.len()
            &&& is_load(b, j) ==> segment_at(b, j).offset + segment_at(b, j).filesz <= b.len()
        } {
        lemma_good_headers(b, n);
        if is_load(b, i) && segment_at(b, i).filesz > 0 {
            let p = lemma_header_is_loaded(b, n, i);
        }
    }
    if first_entry_error(b, n) is None {
        if first_entry_error(b, (i + 1) as nat) is Some {
            lemma_first_error_sticks(b, (i + 1) as nat, n);
        }
        assert(entry_error(b, i) is None);
    }
}

/// A file header is refused by the first thing that is wrong with it, front to back: the class, the byte
/// order, the machine, and each field that the file ends before.
pub proof fn header_is_refused_front_to_back(bytes: &[u8], r: Result<Option<Vec<u8>>, ElfError>)
    requires
        call_ensures(elf64_aarch64_to_raw_image, (bytes,), r),
        bytes@.len() >= 4,
        bytes@[0] == 0x7f,
        bytes@[1] == 0x45,
        bytes@[2] == 0x4c,
        bytes@[3] == 0x46,
    ensures
        ({
            let b = bytes@;
            let n = b.len();
            let class = n > 4 && b[4] == 2;
            let order = n > 5 && b[5] == 1;
            let machine = n >= 20 && b[18] + 0x100 * b[19] == 183;
            &&& !class <==> (r matches Err(ElfError::NotElf64))
            &&& class && !order <==> (r matches Err(ElfError::NotLittleEndian))
            &&& class && order && n < 20 ==> r == Err::<Option<Vec<u8>>, _>(ElfError::ShortRead(18))
            &&& class && order && machine && 20 <= n < 40 ==> r == Err::<Option<Vec<u8>>, _>(
                ElfError::ShortRead(32),
            )
            &&& class && order && machine && 40 <= n < 56 ==> r == Err::<Option<Vec<u8>>, _>(
                ElfError::ShortRead(54),
            )
            &&& class && order && machine && 56 <= n < 58 ==> r == Err::<Option<Vec<u8>>, _>(
                ElfError::ShortRead(56),
            )
            &&& class && order && machine && n >= 58 && b[54] + 0x100 * b[55] < 56
                ==> (r matches Err(ElfError::HeaderTooSmall(size)) && size == b[54] + 0x100
                * b[55])
            &&& class && order && machine && n >= 58 && b[54] + 0x100 * b[55] >= 56
                ==> !(r matches Err(ElfError::HeaderTooSmall(_)))
        }),
{
    let b = bytes@;
    lemma_table_errors(b, entry_count(b) as nat);
}

proof fn lemma_table_errors(b: Seq<u8>, n: nat)
    ensures
        first_entry_error(b, n) matches Some(e) ==> !(e is NotElf64) && !(e is NotLittleEndian)
            && !(e is HeaderTooSmall),
    decreases n,
{
    if n > 0 {
        lemma_table_errors(b, (n - 1) as nat);
    }
}

} // verus!
