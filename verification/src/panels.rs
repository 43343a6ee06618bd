use vstd::prelude::*;
use crate::config::{AppConfig, ColorSlot, ThemePreset};

verus! {

/// Sum of a sequence of counters.
pub open spec fn sum_of(s: Seq<u64>) -> int
    decreases s.len(),
{
    if s.len() == 0 { 0 } else { sum_of(s.drop_last()) + s.last() }
}

/// A prefix never sums to more than the whole.
pub proof fn lemma_prefix_sum_le(s: Seq<u64>, i: int)
    requires
        0 <= i <= s.len(),
    ensures
        0 <= sum_of(s.subrange(0, i)) <= sum_of(s),
    decreases s.len() - i,
{
    if i < s.len() {
        lemma_prefix_sum_le(s, i + 1);
        assert(s.subrange(0, i + 1).drop_last() =~= s.subrange(0, i));
    } else {
        assert(s.subrange(0, i) =~= s);
    }
    lemma_sum_nonneg(s.subrange(0, i));
}

/// Sums of counters are never negative.
pub proof fn lemma_sum_nonneg(s: Seq<u64>)
    ensures
        sum_of(s) >= 0,
    decreases s.len(),
{
    if s.len() > 0 {
        lemma_sum_nonneg(s.drop_last());
    }
}

/// The CPU card.
pub struct CpuPanelView;

impl CpuPanelView {
    /// Mean clock frequency over all cores (integer division), zero without
    /// cores.
    pub fn average_frequency(freqs: &Vec<u64>) -> (avg: u64)
        requires
            sum_of(freqs@) <= u64::MAX,
        ensures
            avg == sum_of(freqs@) / (if freqs@.len() == 0 { 1 } else { freqs@.len() as int }),
    {
        let n = freqs.len();
        let mut total: u64 = 0;
        for i in 0..n
            invariant
                n == freqs@.len(),
                sum_of(freqs@) <= u64::MAX,
                total == sum_of(freqs@.subrange(0, i as int)),
        {
            proof {
                lemma_prefix_sum_le(freqs@, i + 1);
                assert(freqs@.subrange(0, i + 1).drop_last() =~= freqs@.subrange(0, i as int));
            }
            total = total + freqs[i];
        }
        proof {
            assert(freqs@.subrange(0, n as int) =~= freqs@);
        }
        let divisor: u64 = if n == 0 { 1 } else { n as u64 };
        total / divisor
    }
}

/// Which cards the main area shows.
#[derive(Clone, Copy, Debug, PartialEq, Eq, Structural)]
pub enum ViewFilter {
    All,
    CpuGpu,
    Memory,
    DisksNet,
    Processes,
}

/// Caption of each view tab.
pub open spec fn tab_caption(f: ViewFilter) -> Seq<char> {
    match f {
        ViewFilter::All => "全部 (All)"@,
        ViewFilter::CpuGpu => "CPU / GPU"@,
        ViewFilter::Memory => "記憶體 (RAM)"@,
        ViewFilter::DisksNet => "硬碟/網路"@,
        ViewFilter::Processes => "進程 (Procs)"@,
    }
}

impl ViewFilter {
    /// Caption of this view's tab.
    pub fn tab_label(&self) -> (s: &'static str)
        ensures
            s@ == tab_caption(*self),
    {
        match self {
            ViewFilter::All => {
                proof { reveal_strlit("全部 (All)"); }
                "全部 (All)"
            },
            ViewFilter::CpuGpu => {
                proof { reveal_strlit("CPU / GPU"); }
                "CPU / GPU"
            },
            ViewFilter::Memory => {
                proof { reveal_strlit("記憶體 (RAM)"); }
                "記憶體 (RAM)"
            },
            ViewFilter::DisksNet => {
                proof { reveal_strlit("硬碟/網路"); }
                "硬碟/網路"
            },
            ViewFilter::Processes => {
                proof { reveal_strlit("進程 (Procs)"); }
                "進程 (Procs)"
            },
        }
    }
}

/// The most network interfaces the storage and network card lists.
pub const MAX_SHOWN_INTERFACES: usize = 3;

/// The storage and network card.
pub struct DiskNetPanelView;

impl DiskNetPanelView {
    /// How many of `count` network interfaces the card lists: the first
    /// ones, at most `MAX_SHOWN_INTERFACES` of them.
    pub fn shown_interfaces(count: usize) -> (n: usize)
        ensures
            n == (if count < MAX_SHOWN_INTERFACES { count } else { MAX_SHOWN_INTERFACES }),
    {
        if count < MAX_SHOWN_INTERFACES {
            count
        } else {
            MAX_SHOWN_INTERFACES
        }
    }
}

/// The top bar.
pub struct HeaderView;

impl HeaderView {
    /// The refresh intervals offered, in milliseconds.
    pub fn refresh_choices() -> (v: Vec<u64>)
        ensures
            v@ == seq![250u64, 500u64, 1000u64, 2000u64],
    {
        vec![250, 500, 1000, 2000]
    }

    /// The view tabs, in reading order.
    pub fn tabs() -> (v: Vec<ViewFilter>)
        ensures
            v@ == seq![ViewFilter::All, ViewFilter::CpuGpu, ViewFilter::Memory, ViewFilter::DisksNet, ViewFilter::Processes],
    {
        vec![ViewFilter::All, ViewFilter::CpuGpu, ViewFilter::Memory, ViewFilter::DisksNet, ViewFilter::Processes]
    }

    /// Whether a new sample is due: at least one refresh interval has passed
    /// since the last one.
    pub fn refresh_due(elapsed_ms: u64, refresh_ms: u64) -> (due: bool)
        ensures
            due == (elapsed_ms >= refresh_ms),
    {
        elapsed_ms >= refresh_ms
    }
}

/// Something the user did in the settings window.
#[derive(Clone, Copy, Debug)]
pub enum SettingsEvent {
    ToggleAutosave,
    SelectPreset(ThemePreset),
    /// A colour picker now holds this colour.
    SetColor(ColorSlot, [u8; 4]),
    /// A history length was picked.
    SetHistory(usize),
    ToggleSystemProcesses,
    Close,
}

/// The history lengths the settings window offers, in samples.
pub open spec fn offered_history(n: usize) -> bool {
    n == 30 || n == 60 || n == 120
}

/// The colour slots that have a picker in the settings window; the process
/// colour changes only with the theme.
pub open spec fn pickable_slot(slot: ColorSlot) -> bool {
    slot != ColorSlot::Proc
}

/// The configuration, open flag and "changed" answer after a settings event.
/// A closed window ignores events. Toggles and theme choices always count as
/// a change; a picked colour or history length only when it differs. A colour
/// for a slot without a picker, or a history length that is not offered,
/// changes nothing.
pub open spec fn after_settings_event(c: AppConfig, open: bool, e: SettingsEvent) -> (AppConfig, bool, bool) {
    if !open {
        (c, open, false)
    } else {
        match e {
            SettingsEvent::ToggleAutosave => (AppConfig { enable_autosave: !c.enable_autosave, ..c }, true, true),
            SettingsEvent::SelectPreset(p) => (c.with_preset(p), true, true),
            SettingsEvent::SetColor(slot, rgba) => if pickable_slot(slot) {
                (c.with_color(slot, rgba), true, c.color_of(slot) != rgba)
            } else {
                (c, true, false)
            },
            SettingsEvent::SetHistory(n) => if offered_history(n) {
                (AppConfig { history_capacity: n, ..c }, true, c.history_capacity != n)
            } else {
                (c, true, false)
            },
            SettingsEvent::ToggleSystemProcesses => (
                AppConfig { show_system_processes: !c.show_system_processes, ..c },
                true,
                true,
            ),
            SettingsEvent::Close => (c, false, false),
        }
    }
}

/// The settings window keeps the configuration within what it offers: the
/// history length changes only to an offered length, and the theme and the
/// process colour change only when a theme is chosen, which then sets them
/// to that theme.
pub proof fn lemma_settings_stay_within_choices(c: AppConfig, open: bool, e: SettingsEvent)
    ensures
        ({
            let n = after_settings_event(c, open, e).0;
            &&& n.history_capacity != c.history_capacity ==> offered_history(n.history_capacity)
            &&& (n.proc_color != c.proc_color || n.theme_preset != c.theme_preset) ==> (open && e is SelectPreset)
            &&& open ==> (e matches SettingsEvent::SelectPreset(p) ==> n == c.with_preset(p))
        }),
{
}

/// What each settings event does, field by field. With the window open, the
/// two checkboxes negate their setting (so toggling twice restores it) and
/// leave everything else as it was, and report a change; closing only
/// closes. A closed window changes nothing.
pub proof fn lemma_settings_event_effects(c: AppConfig, open: bool, e: SettingsEvent)
    ensures
        ({
            let (n, o, changed) = after_settings_event(c, open, e);
            &&& !open ==> n == c && !o && !changed
            &&& open && e is ToggleSystemProcesses ==> n.show_system_processes == !c.show_system_processes
                && n == (AppConfig { show_system_processes: n.show_system_processes, ..c }) && o && changed
                && after_settings_event(n, o, e).0 == c
            &&& open && e is ToggleAutosave ==> n.enable_autosave == !c.enable_autosave
                && n == (AppConfig { enable_autosave: n.enable_autosave, ..c }) && o && changed
                && after_settings_event(n, o, e).0 == c
            &&& open && e is Close ==> n == c && !o && !changed
            &&& open && !(e is Close) ==> o
            &&& open ==> (e matches SettingsEvent::SetHistory(h) ==> ((h == 30 || h == 60 || h == 120) ==> n.history_capacity == h
                && changed == (h != c.history_capacity)
                && n == (AppConfig { history_capacity: h, ..c }))
                && (!(h == 30 || h == 60 || h == 120) ==> n == c && !changed))
            &&& open ==> (e matches SettingsEvent::SetColor(slot, rgba) ==> (slot != ColorSlot::Proc ==>
                n.color_of(slot) == rgba && changed == (rgba != c.color_of(slot))
                && forall|other: ColorSlot| other != slot ==> #[trigger] n.color_of(other) == c.color_of(other))
                && n.theme_preset == c.theme_preset && n.history_capacity == c.history_capacity
                && n.enable_autosave == c.enable_autosave && n.show_system_processes == c.show_system_processes)
            &&& open ==> (e matches SettingsEvent::SetColor(slot, rgba) ==> (slot == ColorSlot::Proc ==> n == c && !changed))
        }),
{
}

/// The settings window.
pub struct SettingsModalView;

impl SettingsModalView {
    /// The history lengths offered, in samples.
    pub fn history_choices() -> (v: Vec<usize>)
        ensures
            v@ == seq![30usize, 60usize, 120usize],
    {
        vec![30, 60, 120]
    }

    /// Applies one event; returns whether the configuration changed (and so
    /// has to be saved).
    pub fn handle(is_open: &mut bool, config: &mut AppConfig, event: SettingsEvent) -> (changed: bool)
        ensures
            (*final(config), *final(is_open), changed) == after_settings_event(*old(config), *old(is_open), event),
    {
        if !*is_open {
            return false;
        }
        match event {
            SettingsEvent::ToggleAutosave => {
                config.enable_autosave = !config.enable_autosave;
                true
            },
            SettingsEvent::SelectPreset(p) => {
                config.apply_preset(p);
                true
            },
            SettingsEvent::SetColor(slot, rgba) => {
                if slot == ColorSlot::Proc {
                    return false;
                }
                let cur = config.color(slot);
                let same = cur[0] == rgba[0] && cur[1] == rgba[1] && cur[2] == rgba[2] && cur[3] == rgba[3];
                config.set_color(slot, rgba);
                proof {
                    if same {
                        assert(cur@ =~= rgba@);
                        assert(cur == rgba);
                    } else {
                        assert(cur@ != rgba@);
                    }
                }
                !same
            },
            SettingsEvent::SetHistory(n) => {
                if !(n == 30 || n == 60 || n == 120) {
                    return false;
                }
                let changed = config.history_capacity != n;
                config.history_capacity = n;
                changed
            },
            SettingsEvent::ToggleSystemProcesses => {
                config.show_system_processes = !config.show_system_processes;
                true
            },
            SettingsEvent::Close => {
                *is_open = false;
                false
            },
        }
    }
}

} // verus!
