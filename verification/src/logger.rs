use vstd::prelude::*;
use crate::text::{decimal, decimal_string};

verus! {

/// Directory the logs are written to.
pub open spec fn log_dir_name() -> Seq<char> {
    "logs"@
}

/// File, inside the log directory, that the auto-saver appends to.
pub open spec fn autosave_file_name() -> Seq<char> {
    "sysmon_autosave.csv"@
}

/// First line of the auto-save file.
pub open spec fn autosave_header() -> Seq<char> {
    "Timestamp,Overall_CPU_Pct,RAM_Used_MB,RAM_Pct,Swap_Used_MB,GPU_Pct,Net_Rx_KBps,Net_Tx_KBps,Focused_PID,Focused_Proc_Name,Focused_CPU_Pct,Focused_Mem_MB\n"@
}

/// Crash-proof auto-saver: appends one line of metrics per refresh to a CSV
/// file and writes the column header exactly once.
#[derive(Debug)]
pub struct AutoSaveLogger {
    log_dir: String,
    autosave_file: String,
    is_header_written: bool,
}

impl AutoSaveLogger {
    /// Whether the file already holds its header line.
    pub closed spec fn spec_header_written(&self) -> bool {
        self.is_header_written
    }

    /// The log directory.
    pub closed spec fn spec_log_dir(&self) -> Seq<char> {
        self.log_dir@
    }

    /// The auto-save file's name inside the log directory.
    pub closed spec fn spec_autosave_file(&self) -> Seq<char> {
        self.autosave_file@
    }

    /// A logger for the auto-save file; a file that already exists is taken to
    /// hold its header.
    pub fn new(autosave_exists: bool) -> (l: Self)
        ensures
            l.spec_header_written() == autosave_exists,
            l.spec_log_dir() == log_dir_name(),
            l.spec_autosave_file() == autosave_file_name(),
    {
        AutoSaveLogger {
            log_dir: String::from_str("logs"),
            autosave_file: String::from_str("sysmon_autosave.csv"),
            is_header_written: autosave_exists,
        }
    }

    /// The log directory.
    pub fn log_dir(&self) -> (s: &str)
        ensures
            s@ == self.spec_log_dir(),
    {
        self.log_dir.as_str()
    }

    /// The auto-save file's name inside the log directory.
    pub fn autosave_file(&self) -> (s: &str)
        ensures
            s@ == self.spec_autosave_file(),
    {
        self.autosave_file.as_str()
    }

    /// Whether the file already holds its header line.
    pub fn header_written(&self) -> (b: bool)
        ensures
            b == self.spec_header_written(),
    {
        self.is_header_written
    }

    /// Whether a refresh writes an auto-save entry at all: only while
    /// auto-save is enabled. Only then is the auto-save file opened.
    pub fn wants_entry(autosave_enabled: bool) -> (w: bool)
        ensures
            w == autosave_enabled,
    {
        autosave_enabled
    }

    /// Starts an auto-save entry once the file has been tried. An entry is
    /// written only while auto-save is enabled and the file could be opened;
    /// otherwise the answer is `None` and the logger is left as it was, so
    /// the header stays due. When an entry is written, the answer says
    /// whether the header goes first, and from then on the header counts as
    /// written.
    pub fn begin_entry(&mut self, autosave_enabled: bool, file_opened: bool) -> (write: Option<bool>)
        ensures
            (write, final(self).spec_header_written())
                == refresh_step(old(self).spec_header_written(), autosave_enabled, file_opened),
            write is None ==> *final(self) == *old(self),
            final(self).spec_log_dir() == old(self).spec_log_dir(),
            final(self).spec_autosave_file() == old(self).spec_autosave_file(),
    {
        if !autosave_enabled || !file_opened {
            return None;
        }
        let write_header = !self.is_header_written;
        self.is_header_written = true;
        Some(write_header)
    }

    /// The column header of the auto-save file.
    pub fn header() -> (s: &'static str)
        ensures
            s@ == autosave_header(),
    {
        proof {
            reveal_strlit("Timestamp,Overall_CPU_Pct,RAM_Used_MB,RAM_Pct,Swap_Used_MB,GPU_Pct,Net_Rx_KBps,Net_Tx_KBps,Focused_PID,Focused_Proc_Name,Focused_CPU_Pct,Focused_Mem_MB\n");
        }
        "Timestamp,Overall_CPU_Pct,RAM_Used_MB,RAM_Pct,Swap_Used_MB,GPU_Pct,Net_Rx_KBps,Net_Tx_KBps,Focused_PID,Focused_Proc_Name,Focused_CPU_Pct,Focused_Mem_MB\n"
    }

    /// The PID and name columns of an entry: the pinned process's, or "N/A"
    /// and "None" when nothing is pinned.
    pub fn focused_columns(focused: Option<(u32, &str)>) -> (cols: (String, String))
        ensures
            match focused {
                Some((pid, name)) => cols.0@ == decimal(pid as nat) && cols.1@ == name@,
                None => cols.0@ == "N/A"@ && cols.1@ == "None"@,
            },
    {
        match focused {
            Some((pid, name)) => (decimal_string(pid as u64), String::from_str(name)),
            None => (String::from_str("N/A"), String::from_str("None")),
        }
    }
}

/// One refresh of the auto-saver on the "header written" flag, with
/// auto-save enabled or not and the file opened or not: `None` when no entry
/// is written, else whether the header is written before the entry; and the
/// flag afterwards.
pub open spec fn refresh_step(written: bool, enabled: bool, opened: bool) -> (Option<bool>, bool) {
    if enabled && opened {
        (Some(!written), true)
    } else {
        (None, written)
    }
}

/// How many headers a run of refreshes writes, starting from the flag
/// `written`; `refreshes[i]` says whether auto-save was on at refresh `i` and
/// whether the file could be opened then.
pub open spec fn header_writes(written: bool, refreshes: Seq<(bool, bool)>) -> nat
    decreases refreshes.len(),
{
    if refreshes.len() == 0 {
        0
    } else {
        let step = refresh_step(written, refreshes[0].0, refreshes[0].1);
        (if step.0 == Some(true) { 1nat } else { 0nat }) + header_writes(step.1, refreshes.drop_first())
    }
}

/// An entry is written at a refresh exactly when auto-save is on and the file
/// could be opened.
pub open spec fn entry_written(r: (bool, bool)) -> bool {
    r.0 && r.1
}

/// The header is written exactly once over any run of refreshes into a file
/// that lacked it, provided some entry was written; never into a file that
/// had it, and never while no entry is written (auto-save off, or the file
/// could not be opened).
pub proof fn lemma_header_written_once(written: bool, refreshes: Seq<(bool, bool)>)
    ensures
        header_writes(written, refreshes) == (if !written && (exists|i: int|
            0 <= i < refreshes.len() && entry_written(#[trigger] refreshes[i])) {
            1nat
        } else {
            0nat
        }),
    decreases refreshes.len(),
{
    if refreshes.len() > 0 {
        let rest = refreshes.drop_first();
        let step = refresh_step(written, refreshes[0].0, refreshes[0].1);
        lemma_header_written_once(step.1, rest);
        if exists|i: int| 0 <= i < refreshes.len() && entry_written(#[trigger] refreshes[i]) {
            let i = choose|i: int| 0 <= i < refreshes.len() && entry_written(#[trigger] refreshes[i]);
            if i > 0 {
                assert(rest[i - 1] == refreshes[i]);
            }
        }
        if exists|i: int| 0 <= i < rest.len() && entry_written(#[trigger] rest[i]) {
            let i = choose|i: int| 0 <= i < rest.len() && entry_written(#[trigger] rest[i]);
            assert(refreshes[i + 1] == rest[i]);
        }
    }
}

/// Number of processes in the CSV snapshot.
pub const CSV_PROCESS_LIMIT: usize = 50;

/// Number of processes in the JSON snapshot.
pub const JSON_PROCESS_LIMIT: usize = 30;

/// Header of the CSV export's summary section.
pub open spec fn export_summary_header() -> Seq<char> {
    "Timestamp,Hostname,OS_Kernel,Uptime_Secs,CPU_Usage_Pct,RAM_Used_MB,RAM_Total_MB,GPU_Usage_Pct,Total_Processes,Total_Threads\n"@
}

/// Header of the CSV export's process section.
pub open spec fn export_process_header() -> Seq<char> {
    "--- TOP PROCESSES SNAPSHOT ---\nPID,Process_Name,CPU_Pct,Mem_MB,Mem_Pct,User\n"@
}

/// Header of the CSV export's pinned-process section.
pub open spec fn export_focused_header() -> Seq<char> {
    "--- FOCUSED PROCESS ---\nFocused_PID,Focused_Proc_Name,Focused_User,Focused_CPU_Pct,Focused_Mem_MB\n"@
}

/// `parts` joined with `sep` between neighbours.
pub open spec fn joined(parts: Seq<Seq<char>>, sep: Seq<char>) -> Seq<char>
    decreases parts.len(),
{
    if parts.len() == 0 {
        Seq::empty()
    } else if parts.len() == 1 {
        parts[0]
    } else {
        joined(parts.drop_last(), sep) + sep + parts.last()
    }
}

/// Writes snapshots of the current metrics to files.
pub struct LogExporter;

impl LogExporter {
    /// File name of an export taken at `stamp` (a compact local time), with
    /// the given extension.
    pub fn export_file_name(stamp: &str, extension: &str) -> (s: String)
        ensures
            s@ == "sysmon_export_"@ + stamp@ + "."@ + extension@,
    {
        let mut s = String::from_str("sysmon_export_");
        s.append(stamp);
        s.append(".");
        s.append(extension);
        s
    }

    /// Header of the CSV export's summary section.
    pub fn summary_header() -> (s: &'static str)
        ensures
            s@ == export_summary_header(),
    {
        proof {
            reveal_strlit("Timestamp,Hostname,OS_Kernel,Uptime_Secs,CPU_Usage_Pct,RAM_Used_MB,RAM_Total_MB,GPU_Usage_Pct,Total_Processes,Total_Threads\n");
        }
        "Timestamp,Hostname,OS_Kernel,Uptime_Secs,CPU_Usage_Pct,RAM_Used_MB,RAM_Total_MB,GPU_Usage_Pct,Total_Processes,Total_Threads\n"
    }

    /// Header of the CSV export's process section.
    pub fn process_header() -> (s: &'static str)
        ensures
            s@ == export_process_header(),
    {
        proof {
            reveal_strlit("--- TOP PROCESSES SNAPSHOT ---\nPID,Process_Name,CPU_Pct,Mem_MB,Mem_Pct,User\n");
        }
        "--- TOP PROCESSES SNAPSHOT ---\nPID,Process_Name,CPU_Pct,Mem_MB,Mem_Pct,User\n"
    }

    /// Header of the CSV export's pinned-process section.
    pub fn focused_header() -> (s: &'static str)
        ensures
            s@ == export_focused_header(),
    {
        proof {
            reveal_strlit("--- FOCUSED PROCESS ---\nFocused_PID,Focused_Proc_Name,Focused_User,Focused_CPU_Pct,Focused_Mem_MB\n");
        }
        "--- FOCUSED PROCESS ---\nFocused_PID,Focused_Proc_Name,Focused_User,Focused_CPU_Pct,Focused_Mem_MB\n"
    }

    /// How many processes a snapshot lists: the first `limit` of them.
    pub fn snapshot_len(total: usize, limit: usize) -> (n: usize)
        ensures
            n == if total < limit { total } else { limit },
    {
        if total < limit { total } else { limit }
    }

    /// Joins the entries with `sep` between neighbours.
    pub fn join_entries(parts: &Vec<String>, sep: &str) -> (s: String)
        ensures
            s@ == joined(parts@.map_values(|p: String| p@), sep@),
    {
        let ghost views = parts@.map_values(|p: String| p@);
        let mut s = String::new();
        let n = parts.len();
        for i in 0..n
            invariant
                n == parts@.len(),
                views == parts@.map_values(|p: String| p@),
                s@ == joined(views.subrange(0, i as int), sep@),
        {
            if i != 0 {
                s.append(sep);
            }
            s.append(parts[i].as_str());
            proof {
                assert(views.subrange(0, i + 1).drop_last() =~= views.subrange(0, i as int));
                if i == 0 {
                    assert(s@ =~= views.subrange(0, 1)[0]);
                }
            }
        }
        assert(views.subrange(0, n as int) =~= views);
        s
    }
}

} // verus!
