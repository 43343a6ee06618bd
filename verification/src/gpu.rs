use vstd::prelude::*;
use crate::ring::{RingBuffer, pushed};

verus! {

/// Bytes in a mebibyte.
pub const MIB: u64 = 1048576;

/// Name shown before the first GPU query.
pub open spec fn initial_gpu_name() -> Seq<char> {
    "NVIDIA / Integrated GPU"@
}

/// Name shown when no GPU can be queried.
pub open spec fn fallback_gpu_name() -> Seq<char> {
    "NVIDIA / AMD / Integrated GPU"@
}

/// The figures one query of the first GPU produced; each is absent when that
/// particular query failed.
#[derive(Clone, Debug)]
pub struct GpuReading {
    pub name: Option<String>,
    /// Core load in percent.
    pub utilization: Option<u32>,
    /// Used and total video memory in bytes.
    pub memory: Option<(u64, u64)>,
    /// Core temperature in degrees Celsius.
    pub temperature: Option<u32>,
}

/// State of the GPU card. The load is a whole percentage, as the driver
/// reports it.
#[derive(Clone, Debug)]
pub struct GpuMetrics {
    pub name: String,
    pub utilization: u32,
    pub mem_used_mb: u64,
    pub mem_total_mb: u64,
    pub temp_celsius: Option<u32>,
    pub is_available: bool,
    pub history: RingBuffer<u32>,
}

impl GpuMetrics {
    /// The card's state before any query.
    pub fn initial(capacity: usize) -> (g: Self)
        ensures
            g.name@ == initial_gpu_name(),
            g.utilization == 0,
            g.mem_used_mb == 0,
            g.mem_total_mb == 0,
            g.temp_celsius is None,
            !g.is_available,
            g.history@ == Seq::<u32>::empty(),
            g.history.spec_capacity() == capacity,
    {
        let name = String::from_str("NVIDIA / Integrated GPU");
        GpuMetrics {
            name,
            utilization: 0,
            mem_used_mb: 0,
            mem_total_mb: 0,
            temp_celsius: None,
            is_available: false,
            history: RingBuffer::new(capacity),
        }
    }

    /// Takes in one query of the card. With a reading the card is available
    /// and every figure that was read replaces the old one (the load is also
    /// appended to the history; memory is shown in whole mebibytes). Without
    /// one the card is unavailable, the fallback name is shown and the load is
    /// zero; the other figures stay.
    pub fn apply_reading(&mut self, reading: Option<GpuReading>)
        ensures
            final(self).history.spec_capacity() == old(self).history.spec_capacity(),
            match reading {
                Some(r) => {
                    &&& final(self).is_available
                    &&& final(self).name == match r.name { Some(n) => n, None => old(self).name }
                    &&& final(self).utilization == match r.utilization { Some(u) => u, None => old(self).utilization }
                    &&& final(self).history@ == match r.utilization {
                        Some(u) => pushed(old(self).history@, old(self).history.spec_capacity(), u),
                        None => old(self).history@,
                    }
                    &&& final(self).mem_used_mb == match r.memory { Some(m) => m.0 / MIB, None => old(self).mem_used_mb }
                    &&& final(self).mem_total_mb == match r.memory { Some(m) => m.1 / MIB, None => old(self).mem_total_mb }
                    &&& final(self).temp_celsius == match r.temperature { Some(t) => Some(t), None => old(self).temp_celsius }
                },
                None => {
                    &&& !final(self).is_available
                    &&& final(self).name@ == fallback_gpu_name()
                    &&& final(self).utilization == 0
                    &&& final(self).history@ == old(self).history@
                    &&& final(self).mem_used_mb == old(self).mem_used_mb
                    &&& final(self).mem_total_mb == old(self).mem_total_mb
                    &&& final(self).temp_celsius == old(self).temp_celsius
                },
            },
    {
        match reading {
            Some(r) => {
                self.is_available = true;
                if let Some(n) = r.name {
                    self.name = n;
                }
                if let Some(u) = r.utilization {
                    self.utilization = u;
                    self.history.push(u);
                }
                if let Some((used, total)) = r.memory {
                    self.mem_used_mb = used / MIB;
                    self.mem_total_mb = total / MIB;
                }
                if let Some(t) = r.temperature {
                    self.temp_celsius = Some(t);
                }
            },
            None => {
                self.is_available = false;
                self.name = String::from_str("NVIDIA / AMD / Integrated GPU");
                self.utilization = 0;
            },
        }
    }
}

/// How alarming a GPU temperature is.
#[derive(Clone, Copy, Debug, PartialEq, Eq, Structural)]
pub enum TempLevel {
    /// Above 80 °C.
    Hot,
    /// Above 65 °C.
    Warm,
    /// 65 °C or below.
    Normal,
}

/// The GPU card panel.
pub struct GpuPanelView;

impl GpuPanelView {
    /// The colour class of a temperature reading.
    pub fn temp_level(temp: u32) -> (l: TempLevel)
        ensures
            l == if temp > 80 { TempLevel::Hot } else if temp > 65 { TempLevel::Warm } else { TempLevel::Normal },
    {
        if temp > 80 {
            TempLevel::Hot
        } else if temp > 65 {
            TempLevel::Warm
        } else {
            TempLevel::Normal
        }
    }
}

} // verus!
