use lib::gdt::{
    gdt_entry, kernel_gdt, seg_desctype, seg_gran, seg_long, seg_pres, seg_priv, seg_size,
    GDT_ACCESS_CODE_PL0, GDT_ACCESS_CODE_PL3, GDT_ACCESS_DATA_PL0, GDT_ACCESS_DATA_PL3,
    GDT_ACCESS_STACK_PL0, GDT_ACCESS_STACK_PL3, GDT_SEG_GRANULAR_FLAGS, SEG_CODE_EXRD,
    SEG_DATA_RDWR,
};

#[test]
fn seg_flag_helpers_set_one_field() {
    assert_eq!(seg_desctype(1), 0x10);
    assert_eq!(seg_desctype(0), 0x00);
    assert_eq!(seg_desctype(3), 0x10);
    assert_eq!(seg_pres(1), 0x80);
    assert_eq!(seg_pres(2), 0x00);
    assert_eq!(seg_priv(0), 0x00);
    assert_eq!(seg_priv(3), 0x60);
    assert_eq!(seg_priv(2), 0x40);
    assert_eq!(seg_priv(7), 0x60);
    assert_eq!(seg_long(1), 0x20);
    assert_eq!(seg_size(1), 0x40);
    assert_eq!(seg_gran(1), 0x80);
    assert_eq!(seg_gran(0xfe), 0x00);
}

#[test]
fn access_constants_combine_the_flags() {
    let pl0 = seg_desctype(1) | seg_pres(1) | seg_priv(0);
    let pl3 = seg_desctype(1) | seg_pres(1) | seg_priv(3);
    assert_eq!(GDT_ACCESS_CODE_PL0, pl0 | SEG_CODE_EXRD);
    assert_eq!(GDT_ACCESS_DATA_PL0, pl0 | SEG_DATA_RDWR);
    assert_eq!(GDT_ACCESS_STACK_PL0, pl0 | SEG_DATA_RDWR);
    assert_eq!(GDT_ACCESS_CODE_PL3, pl3 | SEG_CODE_EXRD);
    assert_eq!(GDT_ACCESS_DATA_PL3, pl3 | SEG_DATA_RDWR);
    assert_eq!(GDT_ACCESS_STACK_PL3, pl3 | SEG_DATA_RDWR);
    assert_eq!(GDT_SEG_GRANULAR_FLAGS, seg_long(0) | seg_size(1) | seg_gran(1));
    assert_eq!(GDT_ACCESS_CODE_PL0, 0x9a);
    assert_eq!(GDT_ACCESS_DATA_PL3, 0xf2);
    assert_eq!(GDT_SEG_GRANULAR_FLAGS, 0xc0);
}

#[test]
fn gdt_entry_flat_kernel_code_segment() {
    let d = gdt_entry(0xffff, GDT_ACCESS_CODE_PL0, GDT_SEG_GRANULAR_FLAGS);
    assert_eq!(d.limit_low, 0xffff);
    assert_eq!(d.base_low, 0);
    assert_eq!(d.base_middle, 0);
    assert_eq!(d.access, 0x9a);
    assert_eq!(d.limit_granularity, 0xc0);
    assert_eq!(d.base_high, 0);
}

#[test]
fn gdt_entry_null_descriptor_is_zero() {
    let d = gdt_entry(0, 0, 0);
    assert_eq!(
        (d.limit_low, d.base_low, d.base_middle, d.access, d.limit_granularity, d.base_high),
        (0, 0, 0, 0, 0, 0)
    );
}

#[test]
fn gdt_entry_splits_a_20_bit_limit() {
    let d = gdt_entry(0xfabcde, 0x92, 0xcf);
    assert_eq!(d.limit_low, 0xbcde);
    // Limit bits 16-19 and the high nibble of the granularity byte.
    assert_eq!(d.limit_granularity, 0xca);
    let limit = d.limit_low as u32 | ((d.limit_granularity as u32 & 0x0f) << 16);
    assert_eq!(limit, 0xfabcde & 0xfffff);
}

#[test]
fn kernel_gdt_table() {
    let t = kernel_gdt();
    assert_eq!(t.len(), 7);
    let access: Vec<u8> = t.iter().map(|d| d.access).collect();
    assert_eq!(access, vec![0x00, 0x9a, 0x92, 0x92, 0xfa, 0xf2, 0xf2]);
    assert_eq!((t[0].limit_low, t[0].limit_granularity), (0, 0));
    for d in &t[1..] {
        assert_eq!((d.limit_low, d.limit_granularity), (0xffff, 0xc0));
        assert_eq!((d.base_low, d.base_middle, d.base_high), (0, 0, 0));
    }
}
