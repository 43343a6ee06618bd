use btop_gui::config::{preset_color, AppConfig, ColorSlot, ThemePreset};

const ALL_PRESETS: [ThemePreset; 4] = [
    ThemePreset::Neon,
    ThemePreset::GreenMatrix,
    ThemePreset::IceBlue,
    ThemePreset::WarmOrange,
];

const ALL_SLOTS: [ColorSlot; 6] = [
    ColorSlot::Cpu,
    ColorSlot::Gpu,
    ColorSlot::Ram,
    ColorSlot::Disk,
    ColorSlot::Net,
    ColorSlot::Proc,
];

fn colors(c: &AppConfig) -> [[u8; 4]; 6] {
    [c.cpu_color, c.gpu_color, c.ram_color, c.disk_color, c.net_color, c.proc_color]
}

#[test]
fn default_theme_is_neon() {
    assert_eq!(ThemePreset::default(), ThemePreset::Neon);
}

#[test]
fn theme_names() {
    assert_eq!(ThemePreset::Neon.name(), "暗黑霓虹 (Cyberpunk)");
    assert_eq!(ThemePreset::GreenMatrix.name(), "綠黑矩陣 (Matrix)");
    assert_eq!(ThemePreset::IceBlue.name(), "冰藍極光 (Ice Blue)");
    assert_eq!(ThemePreset::WarmOrange.name(), "日落暖橙 (Warm Orange)");
}

#[test]
fn default_config_values() {
    let c = AppConfig::default();
    assert!(c.enable_autosave);
    assert_eq!(c.theme_preset, ThemePreset::Neon);
    assert_eq!(c.cpu_color, [0, 240, 255, 255]);
    assert_eq!(c.gpu_color, [16, 185, 129, 255]);
    assert_eq!(c.ram_color, [236, 72, 153, 255]);
    assert_eq!(c.disk_color, [245, 158, 11, 255]);
    assert_eq!(c.net_color, [99, 102, 241, 255]);
    assert_eq!(c.proc_color, [239, 68, 68, 255]);
    assert_eq!(c.history_capacity, 60);
    assert!(c.show_system_processes);
}

#[test]
fn config_path_is_config_json() {
    assert_eq!(AppConfig::config_path(), "config.json");
}

#[test]
fn apply_green_matrix() {
    let mut c = AppConfig::default();
    c.apply_preset(ThemePreset::GreenMatrix);
    assert_eq!(c.theme_preset, ThemePreset::GreenMatrix);
    assert_eq!(c.cpu_color, [34, 197, 94, 255]);
    assert_eq!(c.gpu_color, [16, 185, 129, 255]);
    assert_eq!(c.ram_color, [74, 222, 128, 255]);
    assert_eq!(c.disk_color, [134, 239, 172, 255]);
    assert_eq!(c.net_color, [52, 211, 153, 255]);
    assert_eq!(c.proc_color, [239, 68, 68, 255]);
}

#[test]
fn apply_ice_blue_and_warm_orange() {
    let mut c = AppConfig::default();
    c.apply_preset(ThemePreset::IceBlue);
    assert_eq!(
        colors(&c),
        [[56, 189, 248, 255], [99, 102, 241, 255], [168, 85, 247, 255], [14, 165, 233, 255], [129, 140, 248, 255], [244, 63, 94, 255]]
    );
    c.apply_preset(ThemePreset::WarmOrange);
    assert_eq!(
        colors(&c),
        [[245, 158, 11, 255], [234, 88, 12, 255], [239, 68, 68, 255], [251, 146, 60, 255], [217, 119, 6, 255], [225, 29, 72, 255]]
    );
}

#[test]
fn apply_preset_keeps_other_settings() {
    let mut c = AppConfig::default();
    c.enable_autosave = false;
    c.history_capacity = 120;
    c.show_system_processes = false;
    c.apply_preset(ThemePreset::IceBlue);
    assert!(!c.enable_autosave);
    assert_eq!(c.history_capacity, 120);
    assert!(!c.show_system_processes);
}

#[test]
fn apply_preset_twice_is_same_as_once() {
    for p in ALL_PRESETS {
        let mut once = AppConfig::default();
        once.cpu_color = [1, 2, 3, 4];
        once.apply_preset(p);
        let mut twice = once.clone();
        twice.apply_preset(p);
        assert_eq!(colors(&once), colors(&twice));
        assert_eq!(once.theme_preset, twice.theme_preset);
    }
}

#[test]
fn last_preset_wins() {
    for p in ALL_PRESETS {
        for q in ALL_PRESETS {
            let mut a = AppConfig::default();
            a.apply_preset(p);
            a.apply_preset(q);
            let mut b = AppConfig::default();
            b.apply_preset(q);
            assert_eq!(colors(&a), colors(&b));
            assert_eq!(a.theme_preset, q);
        }
    }
}

#[test]
fn default_matches_neon_preset() {
    let d = AppConfig::default();
    let mut n = AppConfig::default();
    n.apply_preset(ThemePreset::Neon);
    assert_eq!(colors(&d), colors(&n));
    for slot in ALL_SLOTS {
        assert_eq!(d.color(slot), preset_color(ThemePreset::Neon, slot));
    }
}

#[test]
fn set_color_is_local() {
    let mut c = AppConfig::default();
    c.set_color(ColorSlot::Net, [9, 8, 7, 6]);
    assert_eq!(c.net_color, [9, 8, 7, 6]);
    assert_eq!(c.color(ColorSlot::Net), [9, 8, 7, 6]);
    assert_eq!(c.cpu_color, [0, 240, 255, 255]);
    assert_eq!(c.theme_preset, ThemePreset::Neon);
}

#[test]
fn from_loaded_prefers_file() {
    let mut saved = AppConfig::default();
    saved.history_capacity = 30;
    let (c, must_save) = AppConfig::from_loaded(Some(saved));
    assert_eq!(c.history_capacity, 30);
    assert!(!must_save);
    let (d, must_save) = AppConfig::from_loaded(None);
    assert_eq!(d.history_capacity, 60);
    assert!(must_save);
}
