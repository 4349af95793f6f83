//! Global Descriptor Table: segment flag helpers and the encoding of one
//! flat (base 0) segment descriptor.
use vstd::prelude::*;

verus! {

// Bit positions in the access byte.
pub const SEG_DESCTYPE_BIT: u8 = 0x04;
pub const SEG_PRES_BIT: u8 = 0x07;
pub const SEG_PRIV_SHIFT: u8 = 0x05;
// Bit positions in the granularity nibble.
pub const SEG_LONG_BIT: u8 = 0x05;
pub const SEG_SIZE_BIT: u8 = 0x06;
pub const SEG_GRAN_BIT: u8 = 0x07;

/// Descriptor type flag (0 for system, 1 for code/data): bit 4 of the access byte.
pub fn seg_desctype(x: u8) -> (r: u8)
    ensures
        r == (x % 2) * 16,
{
    let r = (x & 1) << SEG_DESCTYPE_BIT;
    assert(((x & 1) << 4u8) == (x % 2) * 16) by (bit_vector);
    r
}

/// Present flag: bit 7 of the access byte.
pub fn seg_pres(x: u8) -> (r: u8)
    ensures
        r == (x % 2) * 128,
{
    let r = (x & 1) << SEG_PRES_BIT;
    assert(((x & 1) << 7u8) == (x % 2) * 128) by (bit_vector);
    r
}

/// Privilege level (0 - 3): bits 5 and 6 of the access byte.
pub fn seg_priv(x: u8) -> (r: u8)
    ensures
        r == (x % 4) * 32,
{
    let r = (x & 0x03) << SEG_PRIV_SHIFT;
    assert(((x & 3) << 5u8) == (x % 4) * 32) by (bit_vector);
    r
}

/// Long mode flag: bit 5 of the granularity byte.
pub fn seg_long(x: u8) -> (r: u8)
    ensures
        r == (x % 2) * 32,
{
    let r = (x & 1) << SEG_LONG_BIT;
    assert(((x & 1) << 5u8) == (x % 2) * 32) by (bit_vector);
    r
}

/// Size flag (0 for 16-bit, 1 for 32-bit): bit 6 of the granularity byte.
pub fn seg_size(x: u8) -> (r: u8)
    ensures
        r == (x % 2) * 64,
{
    let r = (x & 1) << SEG_SIZE_BIT;
    assert(((x & 1) << 6u8) == (x % 2) * 64) by (bit_vector);
    r
}

/// Granularity flag (0 for 1B - 1MB, 1 for 4KB - 4GB): bit 7 of the granularity byte.
pub fn seg_gran(x: u8) -> (r: u8)
    ensures
        r == (x % 2) * 128,
{
    let r = (x & 1) << SEG_GRAN_BIT;
    assert(((x & 1) << 7u8) == (x % 2) * 128) by (bit_vector);
    r
}


// Segment types (low nibble of the access byte).
pub const SEG_DATA_RD: u8 = 0x00; // Read-Only
pub const SEG_DATA_RDA: u8 = 0x01; // Read-Only, accessed
pub const SEG_DATA_RDWR: u8 = 0x02; // Read/Write
pub const SEG_DATA_RDWRA: u8 = 0x03; // Read/Write, accessed
pub const SEG_DATA_RDEXPD: u8 = 0x04; // Read-Only, expand-down
pub const SEG_DATA_RDEXPDA: u8 = 0x05; // Read-Only, expand-down, accessed
pub const SEG_DATA_RDWREXPD: u8 = 0x06; // Read/Write, expand-down
pub const SEG_DATA_RDWREXPDA: u8 = 0x07; // Read/Write, expand-down, accessed
pub const SEG_CODE_EX: u8 = 0x08; // Execute-Only
pub const SEG_CODE_EXA: u8 = 0x09; // Execute-Only, accessed
pub const SEG_CODE_EXRD: u8 = 0x0A; // Execute/Read
pub const SEG_CODE_EXRDA: u8 = 0x0B; // Execute/Read, accessed
pub const SEG_CODE_EXC: u8 = 0x0C; // Execute-Only, conforming
pub const SEG_CODE_EXCA: u8 = 0x0D; // Execute-Only, conforming, accessed
pub const SEG_CODE_EXRDC: u8 = 0x0E; // Execute/Read, conforming
pub const SEG_CODE_EXRDCA: u8 = 0x0F; // Execute/Read, conforming, accessed

// Access bytes: present, code/data descriptor, privilege level, segment type.
pub const GDT_ACCESS_CODE_PL0: u8 = (1u8 << 4u8) | (1u8 << 7u8) | SEG_CODE_EXRD;
pub const GDT_ACCESS_DATA_PL0: u8 = (1u8 << 4u8) | (1u8 << 7u8) | SEG_DATA_RDWR;
// Expand down flags aren't needed: memory is flat and paged, not segmented.
pub const GDT_ACCESS_STACK_PL0: u8 = (1u8 << 4u8) | (1u8 << 7u8) | SEG_DATA_RDWR;
pub const GDT_ACCESS_CODE_PL3: u8 = (1u8 << 4u8) | (1u8 << 7u8) | (3u8 << 5u8) | SEG_CODE_EXRD;
pub const GDT_ACCESS_DATA_PL3: u8 = (1u8 << 4u8) | (1u8 << 7u8) | (3u8 << 5u8) | SEG_DATA_RDWR;
pub const GDT_ACCESS_STACK_PL3: u8 = (1u8 << 4u8) | (1u8 << 7u8) | (3u8 << 5u8) | SEG_DATA_RDWR;

// Segment flags for granularity (bits 52-55): 32-bit, 4KB granularity, not long mode.
pub const GDT_SEG_GRANULAR_FLAGS: u8 = (1u8 << 6u8) | (1u8 << 7u8);

/// The access byte of a present code/data segment with privilege level `pl`
/// and segment type `typ` (below 16): the sum of `seg_desctype(1)`,
/// `seg_pres(1)`, `seg_priv(pl)` and `typ`, whose bits do not overlap.
pub open spec fn access_byte(pl: u8, typ: u8) -> int {
    16 + 128 + (pl % 4) * 32 + typ
}

/// Each access constant is the combination of the flag helpers that names it
/// (present, code/data, privilege level) with its segment type, and the
/// granularity constant is "32-bit, 4KB granularity, not long mode".
pub proof fn lemma_gdt_constants()
    ensures
        GDT_ACCESS_CODE_PL0 == access_byte(0, SEG_CODE_EXRD),
        GDT_ACCESS_DATA_PL0 == access_byte(0, SEG_DATA_RDWR),
        GDT_ACCESS_STACK_PL0 == access_byte(0, SEG_DATA_RDWR),
        GDT_ACCESS_CODE_PL3 == access_byte(3, SEG_CODE_EXRD),
        GDT_ACCESS_DATA_PL3 == access_byte(3, SEG_DATA_RDWR),
        GDT_ACCESS_STACK_PL3 == access_byte(3, SEG_DATA_RDWR),
        GDT_SEG_GRANULAR_FLAGS == 0 * 32 + 1 * 64 + 1 * 128,
{
    assert((1u8 << 4u8) | (1u8 << 7u8) | 0x0Au8 == 0x9Au8) by (bit_vector);
    assert((1u8 << 4u8) | (1u8 << 7u8) | 0x02u8 == 0x92u8) by (bit_vector);
    assert((1u8 << 4u8) | (1u8 << 7u8) | (3u8 << 5u8) | 0x0Au8 == 0xFAu8) by (bit_vector);
    assert((1u8 << 4u8) | (1u8 << 7u8) | (3u8 << 5u8) | 0x02u8 == 0xF2u8) by (bit_vector);
    assert((1u8 << 6u8) | (1u8 << 7u8) == 0xC0u8) by (bit_vector);
}

/// One segment descriptor as the processor reads it (8 bytes, base split in
/// three parts, limit split in two).
pub struct GdtDescriptor {
    pub limit_low: u16,
    pub base_low: u16,
    pub base_middle: u8,
    pub access: u8,
    pub limit_granularity: u8,
    pub base_high: u8,
}

impl GdtDescriptor {
    /// The 20-bit segment limit the descriptor encodes.
    pub open spec fn limit(self) -> int {
        self.limit_low + (self.limit_granularity % 16) * 0x10000
    }

    /// The granularity flags nibble (bits 4-7 of the granularity byte).
    pub open spec fn flags(self) -> int {
        (self.limit_granularity / 16) * 16
    }

    /// The 32-bit segment base the descriptor encodes.
    pub open spec fn base(self) -> int {
        self.base_low + self.base_middle * 0x10000 + self.base_high * 0x1000000
    }
}

/// The descriptor of a flat segment (base 0): the limit's low 16 bits,
/// then its bits 16-19 under the high nibble of `granular`.
pub open spec fn gdt_entry_spec(limit: u32, access: u8, granular: u8) -> GdtDescriptor {
    GdtDescriptor {
        limit_low: (limit % 0x10000) as u16,
        base_low: 0,
        base_middle: 0,
        access,
        limit_granularity: ((limit / 0x10000) % 16 + (granular / 16) * 16) as u8,
        base_high: 0,
    }
}

/// The descriptor of a flat segment (base 0) with the given limit, access
/// byte and granularity flags (the low nibble of `granular` is ignored, as
/// it holds the limit's high bits).
pub fn gdt_entry(limit: u32, access: u8, granular: u8) -> (d: GdtDescriptor)
    ensures
        d == gdt_entry_spec(limit, access, granular),
        d.limit_low == limit % 0x10000,
        d.base_low == 0,
        d.base_middle == 0,
        d.access == access,
        d.limit_granularity == (limit / 0x10000) % 16 + (granular / 16) * 16,
        d.base_high == 0,
        d.limit() == limit % 0x100000,
        d.flags() == (granular / 16) * 16,
        d.base() == 0,
{
    let limit_low = (limit & 0xffff) as u16;
    let lg = (((limit >> 16) & 0x0f) | granular as u32 & 0xf0) as u8;
    assert((limit & 0xffff) == limit % 0x10000) by (bit_vector);
    assert((((limit >> 16) & 0x0f) | (granular as u32) & 0xf0) == (limit / 0x10000) % 16 + (
    granular as u32 / 16) * 16) by (bit_vector);
    assert(limit % 0x10000 + ((limit / 0x10000) % 16) * 0x10000 == limit % 0x100000) by (
    bit_vector);
    GdtDescriptor {
        limit_low,
        base_low: 0,
        base_middle: 0,
        access,
        limit_granularity: lg,
        base_high: 0,
    }
}


/// The kernel's descriptor table, entry by entry: the null descriptor, then
/// code, data and stack segments for privilege level 0 and for privilege
/// level 3, each with limit 0xffff in 4KB pages and 32-bit operands.
pub open spec fn kernel_gdt_spec() -> Seq<GdtDescriptor> {
    seq![
        gdt_entry_spec(0, 0, 0),
        gdt_entry_spec(0xffff, GDT_ACCESS_CODE_PL0, GDT_SEG_GRANULAR_FLAGS),
        gdt_entry_spec(0xffff, GDT_ACCESS_DATA_PL0, GDT_SEG_GRANULAR_FLAGS),
        gdt_entry_spec(0xffff, GDT_ACCESS_STACK_PL0, GDT_SEG_GRANULAR_FLAGS),
        gdt_entry_spec(0xffff, GDT_ACCESS_CODE_PL3, GDT_SEG_GRANULAR_FLAGS),
        gdt_entry_spec(0xffff, GDT_ACCESS_DATA_PL3, GDT_SEG_GRANULAR_FLAGS),
        gdt_entry_spec(0xffff, GDT_ACCESS_STACK_PL3, GDT_SEG_GRANULAR_FLAGS),
    ]
}

/// The descriptors of the kernel's table, in table order (see
/// `kernel_gdt_spec`).
pub fn kernel_gdt() -> (t: Vec<GdtDescriptor>)
    ensures
        t@ == kernel_gdt_spec(),
{
    let mut t: Vec<GdtDescriptor> = Vec::new();
    t.push(gdt_entry(0, 0, 0));
    t.push(gdt_entry(0xffff, GDT_ACCESS_CODE_PL0, GDT_SEG_GRANULAR_FLAGS));
    t.push(gdt_entry(0xffff, GDT_ACCESS_DATA_PL0, GDT_SEG_GRANULAR_FLAGS));
    t.push(gdt_entry(0xffff, GDT_ACCESS_STACK_PL0, GDT_SEG_GRANULAR_FLAGS));
    t.push(gdt_entry(0xffff, GDT_ACCESS_CODE_PL3, GDT_SEG_GRANULAR_FLAGS));
    t.push(gdt_entry(0xffff, GDT_ACCESS_DATA_PL3, GDT_SEG_GRANULAR_FLAGS));
    t.push(gdt_entry(0xffff, GDT_ACCESS_STACK_PL3, GDT_SEG_GRANULAR_FLAGS));
    assert(t@ =~= kernel_gdt_spec());
    t
}

} // verus!
