use vstd::prelude::*;

verus! {

/// The four built-in colour themes.
#[derive(Clone, Copy, Debug, PartialEq, Eq, Structural)]
pub enum ThemePreset {
    Neon,
    GreenMatrix,
    IceBlue,
    WarmOrange,
}

/// The six accent colours a theme assigns.
#[derive(Clone, Copy, Debug, PartialEq, Eq, Structural)]
pub enum ColorSlot {
    Cpu,
    Gpu,
    Ram,
    Disk,
    Net,
    Proc,
}

/// Display name of each theme.
pub open spec fn theme_name(p: ThemePreset) -> Seq<char> {
    match p {
        ThemePreset::Neon => "暗黑霓虹 (Cyberpunk)"@,
        ThemePreset::GreenMatrix => "綠黑矩陣 (Matrix)"@,
        ThemePreset::IceBlue => "冰藍極光 (Ice Blue)"@,
        ThemePreset::WarmOrange => "日落暖橙 (Warm Orange)"@,
    }
}

/// The RGBA colour a theme assigns to a slot.
pub open spec fn preset_rgba(p: ThemePreset, slot: ColorSlot) -> [u8; 4] {
    match p {
        ThemePreset::Neon => match slot {
            ColorSlot::Cpu => [0u8, 240u8, 255u8, 255u8],
            ColorSlot::Gpu => [16u8, 185u8, 129u8, 255u8],
            ColorSlot::Ram => [236u8, 72u8, 153u8, 255u8],
            ColorSlot::Disk => [245u8, 158u8, 11u8, 255u8],
            ColorSlot::Net => [99u8, 102u8, 241u8, 255u8],
            ColorSlot::Proc => [239u8, 68u8, 68u8, 255u8],
        },
        ThemePreset::GreenMatrix => match slot {
            ColorSlot::Cpu => [34u8, 197u8, 94u8, 255u8],
            ColorSlot::Gpu => [16u8, 185u8, 129u8, 255u8],
            ColorSlot::Ram => [74u8, 222u8, 128u8, 255u8],
            ColorSlot::Disk => [134u8, 239u8, 172u8, 255u8],
            ColorSlot::Net => [52u8, 211u8, 153u8, 255u8],
            ColorSlot::Proc => [239u8, 68u8, 68u8, 255u8],
        },
        ThemePreset::IceBlue => match slot {
            ColorSlot::Cpu => [56u8, 189u8, 248u8, 255u8],
            ColorSlot::Gpu => [99u8, 102u8, 241u8, 255u8],
            ColorSlot::Ram => [168u8, 85u8, 247u8, 255u8],
            ColorSlot::Disk => [14u8, 165u8, 233u8, 255u8],
            ColorSlot::Net => [129u8, 140u8, 248u8, 255u8],
            ColorSlot::Proc => [244u8, 63u8, 94u8, 255u8],
        },
        ThemePreset::WarmOrange => match slot {
            ColorSlot::Cpu => [245u8, 158u8, 11u8, 255u8],
            ColorSlot::Gpu => [234u8, 88u8, 12u8, 255u8],
            ColorSlot::Ram => [239u8, 68u8, 68u8, 255u8],
            ColorSlot::Disk => [251u8, 146u8, 60u8, 255u8],
            ColorSlot::Net => [217u8, 119u8, 6u8, 255u8],
            ColorSlot::Proc => [225u8, 29u8, 72u8, 255u8],
        },
    }
}

impl Default for ThemePreset {
    fn default() -> (p: Self)
        ensures
            p == ThemePreset::Neon,
    {
        ThemePreset::Neon
    }
}

impl ThemePreset {
    /// The label shown for this theme in the settings window.
    pub fn name(&self) -> (s: &'static str)
        ensures
            s@ == theme_name(*self),
    {
        match self {
            ThemePreset::Neon => {
                let s = "暗黑霓虹 (Cyberpunk)";
                proof { reveal_strlit("暗黑霓虹 (Cyberpunk)"); }
                s
            },
            ThemePreset::GreenMatrix => {
                let s = "綠黑矩陣 (Matrix)";
                proof { reveal_strlit("綠黑矩陣 (Matrix)"); }
                s
            },
            ThemePreset::IceBlue => {
                let s = "冰藍極光 (Ice Blue)";
                proof { reveal_strlit("冰藍極光 (Ice Blue)"); }
                s
            },
            ThemePreset::WarmOrange => {
                let s = "日落暖橙 (Warm Orange)";
                proof { reveal_strlit("日落暖橙 (Warm Orange)"); }
                s
            },
        }
    }
}

/// User preferences of the monitor.
#[derive(Clone, Debug)]
pub struct AppConfig {
    pub enable_autosave: bool,
    pub theme_preset: ThemePreset,
    pub cpu_color: [u8; 4],
    pub gpu_color: [u8; 4],
    pub ram_color: [u8; 4],
    pub disk_color: [u8; 4],
    pub net_color: [u8; 4],
    pub proc_color: [u8; 4],
    pub history_capacity: usize,
    pub show_system_processes: bool,
}

impl AppConfig {
    /// The colour this configuration holds for a slot.
    pub open spec fn color_of(self, slot: ColorSlot) -> [u8; 4] {
        match slot {
            ColorSlot::Cpu => self.cpu_color,
            ColorSlot::Gpu => self.gpu_color,
            ColorSlot::Ram => self.ram_color,
            ColorSlot::Disk => self.disk_color,
            ColorSlot::Net => self.net_color,
            ColorSlot::Proc => self.proc_color,
        }
    }

    /// This configuration with one slot's colour replaced.
    pub open spec fn with_color(self, slot: ColorSlot, rgba: [u8; 4]) -> AppConfig {
        match slot {
            ColorSlot::Cpu => AppConfig { cpu_color: rgba, ..self },
            ColorSlot::Gpu => AppConfig { gpu_color: rgba, ..self },
            ColorSlot::Ram => AppConfig { ram_color: rgba, ..self },
            ColorSlot::Disk => AppConfig { disk_color: rgba, ..self },
            ColorSlot::Net => AppConfig { net_color: rgba, ..self },
            ColorSlot::Proc => AppConfig { proc_color: rgba, ..self },
        }
    }

    /// This configuration after choosing a theme: the theme is recorded and
    /// all six accent colours take the theme's values; nothing else changes.
    pub open spec fn with_preset(self, p: ThemePreset) -> AppConfig {
        AppConfig {
            theme_preset: p,
            cpu_color: preset_rgba(p, ColorSlot::Cpu),
            gpu_color: preset_rgba(p, ColorSlot::Gpu),
            ram_color: preset_rgba(p, ColorSlot::Ram),
            disk_color: preset_rgba(p, ColorSlot::Disk),
            net_color: preset_rgba(p, ColorSlot::Net),
            proc_color: preset_rgba(p, ColorSlot::Proc),
            ..self
        }
    }

    /// The configuration used when none has been saved.
    pub open spec fn spec_default() -> AppConfig {
        AppConfig {
            enable_autosave: true,
            theme_preset: ThemePreset::Neon,
            cpu_color: [0u8, 240u8, 255u8, 255u8],
            gpu_color: [16u8, 185u8, 129u8, 255u8],
            ram_color: [236u8, 72u8, 153u8, 255u8],
            disk_color: [245u8, 158u8, 11u8, 255u8],
            net_color: [99u8, 102u8, 241u8, 255u8],
            proc_color: [239u8, 68u8, 68u8, 255u8],
            history_capacity: 60,
            show_system_processes: true,
        }
    }
}

impl Default for AppConfig {
    fn default() -> (c: Self)
        ensures
            c == AppConfig::spec_default(),
    {
        AppConfig {
            enable_autosave: true,
            theme_preset: ThemePreset::Neon,
            cpu_color: [0, 240, 255, 255],
            gpu_color: [16, 185, 129, 255],
            ram_color: [236, 72, 153, 255],
            disk_color: [245, 158, 11, 255],
            net_color: [99, 102, 241, 255],
            proc_color: [239, 68, 68, 255],
            history_capacity: 60,
            show_system_processes: true,
        }
    }
}

/// The RGBA colour a theme assigns to a slot, computed.
pub fn preset_color(p: ThemePreset, slot: ColorSlot) -> (c: [u8; 4])
    ensures
        c == preset_rgba(p, slot),
{
    match p {
        ThemePreset::Neon => match slot {
            ColorSlot::Cpu => [0, 240, 255, 255],
            ColorSlot::Gpu => [16, 185, 129, 255],
            ColorSlot::Ram => [236, 72, 153, 255],
            ColorSlot::Disk => [245, 158, 11, 255],
            ColorSlot::Net => [99, 102, 241, 255],
            ColorSlot::Proc => [239, 68, 68, 255],
        },
        ThemePreset::GreenMatrix => match slot {
            ColorSlot::Cpu => [34, 197, 94, 255],
            ColorSlot::Gpu => [16, 185, 129, 255],
            ColorSlot::Ram => [74, 222, 128, 255],
            ColorSlot::Disk => [134, 239, 172, 255],
            ColorSlot::Net => [52, 211, 153, 255],
            ColorSlot::Proc => [239, 68, 68, 255],
        },
        ThemePreset::IceBlue => match slot {
            ColorSlot::Cpu => [56, 189, 248, 255],
            ColorSlot::Gpu => [99, 102, 241, 255],
            ColorSlot::Ram => [168, 85, 247, 255],
            ColorSlot::Disk => [14, 165, 233, 255],
            ColorSlot::Net => [129, 140, 248, 255],
            ColorSlot::Proc => [244, 63, 94, 255],
        },
        ThemePreset::WarmOrange => match slot {
            ColorSlot::Cpu => [245, 158, 11, 255],
            ColorSlot::Gpu => [234, 88, 12, 255],
            ColorSlot::Ram => [239, 68, 68, 255],
            ColorSlot::Disk => [251, 146, 60, 255],
            ColorSlot::Net => [217, 119, 6, 255],
            ColorSlot::Proc => [225, 29, 72, 255],
        },
    }
}

impl AppConfig {
    /// Name of the file the configuration is stored in.
    pub fn config_path() -> (path: String)
        ensures
            path@ == "config.json"@,
    {
        let path = String::from_str("config.json");
        path
    }

    /// Picks the configuration to start with: the one read from disk when it
    /// could be read and parsed, else the defaults; the flag says whether the
    /// defaults still have to be written back.
    pub fn from_loaded(loaded: Option<AppConfig>) -> (res: (AppConfig, bool))
        ensures
            match loaded {
                Some(c) => res.0 == c && !res.1,
                None => res.0 == AppConfig::spec_default() && res.1,
            },
    {
        match loaded {
            Some(c) => (c, false),
            None => (AppConfig::default(), true),
        }
    }

    /// Reads one slot's colour.
    pub fn color(&self, slot: ColorSlot) -> (c: [u8; 4])
        ensures
            c == self.color_of(slot),
    {
        match slot {
            ColorSlot::Cpu => self.cpu_color,
            ColorSlot::Gpu => self.gpu_color,
            ColorSlot::Ram => self.ram_color,
            ColorSlot::Disk => self.disk_color,
            ColorSlot::Net => self.net_color,
            ColorSlot::Proc => self.proc_color,
        }
    }

    /// Replaces one slot's colour; the theme and all other settings stay.
    pub fn set_color(&mut self, slot: ColorSlot, rgba: [u8; 4])
        ensures
            *final(self) == old(self).with_color(slot, rgba),
    {
        match slot {
            ColorSlot::Cpu => self.cpu_color = rgba,
            ColorSlot::Gpu => self.gpu_color = rgba,
            ColorSlot::Ram => self.ram_color = rgba,
            ColorSlot::Disk => self.disk_color = rgba,
            ColorSlot::Net => self.net_color = rgba,
            ColorSlot::Proc => self.proc_color = rgba,
        }
    }

    /// Switches to a theme: records it and loads its six accent colours.
    pub fn apply_preset(&mut self, preset: ThemePreset)
        ensures
            *final(self) == old(self).with_preset(preset),
            final(self).theme_preset == preset,
            forall|slot: ColorSlot| #[trigger] final(self).color_of(slot) == preset_rgba(preset, slot),
            final(self).enable_autosave == old(self).enable_autosave,
            final(self).history_capacity == old(self).history_capacity,
            final(self).show_system_processes == old(self).show_system_processes,
    {
        self.theme_preset = preset;
        self.cpu_color = preset_color(preset, ColorSlot::Cpu);
        self.gpu_color = preset_color(preset, ColorSlot::Gpu);
        self.ram_color = preset_color(preset, ColorSlot::Ram);
        self.disk_color = preset_color(preset, ColorSlot::Disk);
        self.net_color = preset_color(preset, ColorSlot::Net);
        self.proc_color = preset_color(preset, ColorSlot::Proc);
    }
}

/// Choosing the same theme twice has the effect of choosing it once.
pub proof fn lemma_apply_preset_idempotent(c: AppConfig, p: ThemePreset)
    ensures
        c.with_preset(p).with_preset(p) == c.with_preset(p),
{
}

/// Only the last theme chosen matters: choosing `p` and then `q` is the same
/// as choosing `q` alone.
pub proof fn lemma_last_preset_wins(c: AppConfig, p: ThemePreset, q: ThemePreset)
    ensures
        c.with_preset(p).with_preset(q) == c.with_preset(q),
{
}

/// The default configuration carries exactly the colours of its own theme,
/// so re-applying that theme to it changes nothing.
pub proof fn lemma_default_matches_its_theme()
    ensures
        AppConfig::spec_default().with_preset(AppConfig::spec_default().theme_preset)
            == AppConfig::spec_default(),
        forall|slot: ColorSlot| #[trigger] AppConfig::spec_default().color_of(slot)
            == preset_rgba(ThemePreset::Neon, slot),
{
    assert forall|slot: ColorSlot| #[trigger] AppConfig::spec_default().color_of(slot)
        == preset_rgba(ThemePreset::Neon, slot) by {
        match slot {
            ColorSlot::Cpu => {},
            ColorSlot::Gpu => {},
            ColorSlot::Ram => {},
            ColorSlot::Disk => {},
            ColorSlot::Net => {},
            ColorSlot::Proc => {},
        }
    }
}

/// After a theme is applied, reading any slot gives the theme's colour, and
/// a later single-slot edit only changes that slot.
pub proof fn lemma_color_edit_is_local(c: AppConfig, slot: ColorSlot, other: ColorSlot, rgba: [u8; 4])
    requires
        slot != other,
    ensures
        c.with_color(slot, rgba).color_of(slot) == rgba,
        c.with_color(slot, rgba).color_of(other) == c.color_of(other),
        c.with_color(slot, rgba).theme_preset == c.theme_preset,
{
}

} // verus!
