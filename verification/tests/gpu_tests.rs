use zen_monitor::gpu::GpuReading;

#[test]
fn well_formed_line_updates_every_field() {
    let prev = GpuReading::new_zero();
    let r = prev.updated_with(&b"45, 62, 8192, 3050".to_vec());
    assert_eq!(r.usage_centi, 4500);
    assert_eq!(r.temp_c, 62);
    assert_eq!(r.vram_total_mb, 8192);
    assert_eq!(r.vram_used_mb, 3050);
    // 3050 / 8192 = 37.23..% truncated to hundredths
    assert_eq!(r.mem_pct_centi, 3723);
}

#[test]
fn malformed_usage_falls_back_alone() {
    let prev = GpuReading::new_zero();
    let r = prev.updated_with(&b"abc,62,8192,3050".to_vec());
    assert_eq!(r.usage_centi, 0);
    assert_eq!(r.temp_c, 62);
    assert_eq!(r.vram_total_mb, 8192);
    assert_eq!(r.vram_used_mb, 3050);
    assert_eq!(r.mem_pct_centi, 3723);
}

#[test]
fn short_line_keeps_previous_reading() {
    let prev = GpuReading::new_zero().updated_with(&b"45, 62, 8192, 3050".to_vec());
    let r = prev.updated_with(&b"45, 62".to_vec());
    assert_eq!(r, prev);
}

#[test]
fn empty_line_keeps_previous_reading() {
    let prev = GpuReading::new_zero().updated_with(&b"45, 62, 8192, 3050".to_vec());
    let r = prev.updated_with(&b"".to_vec());
    assert_eq!(r, prev);
}

#[test]
fn trailing_newline_and_extra_fields_are_tolerated() {
    let prev = GpuReading::new_zero();
    let r = prev.updated_with(&b" 45 , 62 , 8192 , 3050 , 77 \n".to_vec());
    assert_eq!(r.usage_centi, 4500);
    assert_eq!(r.temp_c, 62);
    assert_eq!(r.vram_total_mb, 8192);
    assert_eq!(r.vram_used_mb, 3050);
}

#[test]
fn fractional_usage_is_kept_in_hundredths() {
    let prev = GpuReading::new_zero();
    let r = prev.updated_with(&b"45.5, 62, 8192, 3050.25".to_vec());
    assert_eq!(r.usage_centi, 4550);
    assert_eq!(r.vram_used_mb, 3050);
}

#[test]
fn second_output_line_spoils_only_the_field_it_touches() {
    let prev = GpuReading::new_zero();
    let r = prev.updated_with(&b"45, 62, 8192, 3050\n46, 63, 8192, 3050\n".to_vec());
    assert_eq!(r.usage_centi, 4500);
    assert_eq!(r.temp_c, 62);
    assert_eq!(r.vram_total_mb, 8192);
    // the newline glues "3050" to the next line's "46": malformed, so zero
    assert_eq!(r.vram_used_mb, 0);
    assert_eq!(r.mem_pct_centi, 0);
}

#[test]
fn negative_temperature_parses() {
    let prev = GpuReading::new_zero();
    let r = prev.updated_with(&b"0, -12, 8192, 0".to_vec());
    assert_eq!(r.temp_c, -12);
}

#[test]
fn zero_total_memory_yields_zero_percent() {
    let prev = GpuReading::new_zero();
    let r = prev.updated_with(&b"45, 62, 0, 0".to_vec());
    assert_eq!(r.mem_pct_centi, 0);
    assert_eq!(r.vram_total_mb, 0);
}

#[test]
fn default_reading_is_all_zero() {
    let d: GpuReading = Default::default();
    assert_eq!(d, GpuReading::new_zero());
    assert_eq!(d.usage_centi, 0);
    assert_eq!(d.mem_pct_centi, 0);
    assert_eq!(d.temp_c, 0);
    assert_eq!(d.vram_used_mb, 0);
    assert_eq!(d.vram_total_mb, 0);
}
