use btop_gui::gpu::{GpuMetrics, GpuPanelView, GpuReading, TempLevel};

#[test]
fn initial_gpu_state() {
    let g = GpuMetrics::initial(60);
    assert_eq!(g.name, "NVIDIA / Integrated GPU");
    assert_eq!(g.utilization, 0);
    assert_eq!(g.mem_used_mb, 0);
    assert_eq!(g.mem_total_mb, 0);
    assert_eq!(g.temp_celsius, None);
    assert!(!g.is_available);
    assert_eq!(g.history.len(), 0);
    assert_eq!(g.history.capacity(), 60);
}

#[test]
fn full_reading_updates_everything() {
    let mut g = GpuMetrics::initial(3);
    g.apply_reading(Some(GpuReading {
        name: Some("RTX".to_string()),
        utilization: Some(57),
        memory: Some((3 * 1048576 + 12345, 8 * 1048576)),
        temperature: Some(66),
    }));
    assert!(g.is_available);
    assert_eq!(g.name, "RTX");
    assert_eq!(g.utilization, 57);
    assert_eq!(g.history.as_slice(), vec![57]);
    assert_eq!(g.mem_used_mb, 3);
    assert_eq!(g.mem_total_mb, 8);
    assert_eq!(g.temp_celsius, Some(66));
}

#[test]
fn partial_reading_keeps_old_figures() {
    let mut g = GpuMetrics::initial(3);
    g.apply_reading(Some(GpuReading { name: None, utilization: Some(10), memory: None, temperature: Some(50) }));
    g.apply_reading(Some(GpuReading { name: None, utilization: None, memory: None, temperature: None }));
    assert!(g.is_available);
    assert_eq!(g.name, "NVIDIA / Integrated GPU");
    assert_eq!(g.utilization, 10);
    assert_eq!(g.temp_celsius, Some(50));
    assert_eq!(g.history.as_slice(), vec![10]);
}

#[test]
fn missing_gpu_falls_back() {
    let mut g = GpuMetrics::initial(3);
    g.apply_reading(Some(GpuReading { name: None, utilization: Some(90), memory: Some((1048576, 2097152)), temperature: Some(70) }));
    g.apply_reading(None);
    assert!(!g.is_available);
    assert_eq!(g.name, "NVIDIA / AMD / Integrated GPU");
    assert_eq!(g.utilization, 0);
    assert_eq!(g.mem_used_mb, 1);
    assert_eq!(g.temp_celsius, Some(70));
}

#[test]
fn temperature_levels() {
    assert_eq!(GpuPanelView::temp_level(81), TempLevel::Hot);
    assert_eq!(GpuPanelView::temp_level(80), TempLevel::Warm);
    assert_eq!(GpuPanelView::temp_level(66), TempLevel::Warm);
    assert_eq!(GpuPanelView::temp_level(65), TempLevel::Normal);
    assert_eq!(GpuPanelView::temp_level(0), TempLevel::Normal);
}
