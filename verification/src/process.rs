use vstd::prelude::*;
use crate::order::{stably_sorted, key_views, sort_positions_within, directed_order, KeyOrder};
use crate::text::{lowercase, contains_seq, decimal, to_lowercase, chars_of, same_text, contains, decimal_string};
use vstd::string::*;

verus! {

/// Column the process table is ordered by.
#[derive(Clone, Copy, Debug, PartialEq, Eq, Structural)]
pub enum SortColumn {
    Cpu,
    Memory,
    Pid,
    Name,
    DiskIo,
}

/// What the process table asks the collector to do.
#[derive(Clone, Debug, PartialEq, Eq)]
pub enum ProcAction {
    Focus(u32, String, String),
    Unfocus,
    Kill(u32),
}

/// One process as the table sees it. Floating-point measurements enter as
/// order keys: `cpu_key` and `io_key` rise with CPU load and with disk I/O.
#[derive(Clone, Debug)]
pub struct ProcRow {
    pub pid: u32,
    pub name: String,
    pub user: String,
    pub mem_bytes: u64,
    pub cpu_key: u64,
    pub io_key: u64,
}

/// Something the user did in the process panel.
#[derive(Clone, Debug)]
pub enum ProcPanelEvent {
    /// The search box now holds this text.
    EditSearch(String),
    /// The ascending/descending button was clicked.
    ToggleSortOrder,
    /// A column was picked in the sort menu.
    ChooseSortColumn(SortColumn),
    /// A row's PID was clicked.
    SelectRow(u32),
    /// A row's pin button was clicked.
    PinRow(u32, String, String),
    /// The inspector's unpin button was clicked.
    UnpinFocused,
    /// A row's kill button was clicked.
    RequestKill(u32, String),
    /// The kill confirmation was accepted.
    ConfirmKill,
    /// The kill confirmation was dismissed.
    CancelKill,
}

/// How a row's PID is highlighted.
#[derive(Clone, Copy, Debug, PartialEq, Eq, Structural)]
pub enum RowMark {
    Focused,
    Selected,
    Plain,
}

/// State of the process manager panel.
#[derive(Clone, Debug)]
pub struct ProcPanelView {
    pub search_query: String,
    pub sort_col: SortColumn,
    pub sort_desc: bool,
    pub selected_pid: Option<u32>,
    pub kill_confirm_pid: Option<(u32, String)>,
}

/// System processes are those run by "SYSTEM" or with a PID below 100.
pub open spec fn is_system_process(row: ProcRow) -> bool {
    row.user@ == "SYSTEM"@ || row.pid < 100
}

/// Whether a row is listed: system processes only when they are shown, and
/// with a non-empty query only rows whose lower-cased name, decimal PID or
/// lower-cased user contains the lower-cased query.
pub open spec fn row_visible(row: ProcRow, show_system: bool, query: Seq<char>) -> bool {
    if !show_system && is_system_process(row) {
        false
    } else if query.len() == 0 {
        true
    } else {
        query_names_row(lowercase(row.name@), row.pid, lowercase(row.user@), lowercase(query))
    }
}

/// Whether an already lower-cased query occurs in the already lower-cased
/// name, in the decimal PID or in the already lower-cased user.
pub open spec fn query_names_row(name: Seq<char>, pid: u32, user: Seq<char>, query: Seq<char>) -> bool {
    contains_seq(name, query) || contains_seq(decimal(pid as nat), query) || contains_seq(user, query)
}

/// Whether an already lower-cased query occurs in the already lower-cased
/// name, in the decimal PID or in the already lower-cased user.
pub fn lowered_query_names_row(name: &str, pid: u32, user: &str, query: &str) -> (r: bool)
    ensures
        r == query_names_row(name@, pid, user@, query@),
{
    if contains(name, query) {
        return true;
    }
    let pid_text = decimal_string(pid as u64);
    if contains(pid_text.as_str(), query) {
        return true;
    }
    contains(user, query)
}

/// The key a row is ordered by for a column; names compare by the code points
/// of their lower-cased text.
pub open spec fn sort_key(row: ProcRow, col: SortColumn) -> Seq<u64> {
    match col {
        SortColumn::Cpu => seq![row.cpu_key],
        SortColumn::Memory => seq![row.mem_bytes],
        SortColumn::Pid => seq![row.pid as u64],
        SortColumn::Name => lowercase(row.name@).map_values(|c: char| c as u64),
        SortColumn::DiskIo => seq![row.io_key],
    }
}

/// The keys of all rows for a column.
pub open spec fn sort_keys(rows: Seq<ProcRow>, col: SortColumn) -> Seq<Seq<u64>> {
    Seq::new(rows.len(), |i: int| sort_key(rows[i], col))
}

/// The panel state and action after one event; `focused` is the PID of the
/// pinned process, if any.
pub open spec fn after_event(
    v: ProcPanelView,
    event: ProcPanelEvent,
    focused: Option<u32>,
) -> (ProcPanelView, Option<ProcAction>) {
    match event {
        ProcPanelEvent::EditSearch(q) => (ProcPanelView { search_query: q, ..v }, None),
        ProcPanelEvent::ToggleSortOrder => (ProcPanelView { sort_desc: !v.sort_desc, ..v }, None),
        ProcPanelEvent::ChooseSortColumn(c) => (ProcPanelView { sort_col: c, ..v }, None),
        ProcPanelEvent::SelectRow(pid) => (ProcPanelView { selected_pid: Some(pid), ..v }, None),
        ProcPanelEvent::PinRow(pid, name, user) => if focused == Some(pid) {
            (v, Some(ProcAction::Unfocus))
        } else {
            (v, Some(ProcAction::Focus(pid, name, user)))
        },
        ProcPanelEvent::UnpinFocused => if focused is Some {
            (v, Some(ProcAction::Unfocus))
        } else {
            (v, None)
        },
        ProcPanelEvent::RequestKill(pid, name) => (
            ProcPanelView { kill_confirm_pid: Some((pid, name)), ..v },
            None,
        ),
        ProcPanelEvent::ConfirmKill => match v.kill_confirm_pid {
            Some((pid, _)) => (ProcPanelView { kill_confirm_pid: None, ..v }, Some(ProcAction::Kill(pid))),
            None => (v, None),
        },
        ProcPanelEvent::CancelKill => (ProcPanelView { kill_confirm_pid: None, ..v }, None),
    }
}

impl Default for ProcPanelView {
    fn default() -> (v: Self)
        ensures
            v.search_query@ == Seq::<char>::empty(),
            v.sort_col == SortColumn::Cpu,
            v.sort_desc,
            v.selected_pid is None,
            v.kill_confirm_pid is None,
    {
        ProcPanelView {
            search_query: String::new(),
            sort_col: SortColumn::Cpu,
            sort_desc: true,
            selected_pid: None,
            kill_confirm_pid: None,
        }
    }
}

/// The order key of a row for a column, computed.
fn row_key(row: &ProcRow, col: SortColumn) -> (k: Vec<u64>)
    ensures
        k@ == sort_key(*row, col),
{
    match col {
        SortColumn::Cpu => vec![row.cpu_key],
        SortColumn::Memory => vec![row.mem_bytes],
        SortColumn::Pid => vec![row.pid as u64],
        SortColumn::DiskIo => vec![row.io_key],
        SortColumn::Name => {
            let lower = to_lowercase(row.name.as_str());
            let chars = chars_of(lower.as_str());
            let mut k: Vec<u64> = Vec::new();
            let n = chars.len();
            for i in 0..n
                invariant
                    n == chars@.len(),
                    chars@ == lowercase(row.name@),
                    k@ == chars@.subrange(0, i as int).map_values(|c: char| c as u64),
            {
                k.push(chars[i] as u64);
                assert(chars@.subrange(0, i + 1).map_values(|c: char| c as u64)
                    =~= chars@.subrange(0, i as int).map_values(|c: char| c as u64).push(chars@[i as int] as u64));
            }
            assert(chars@.subrange(0, n as int) =~= chars@);
            k
        },
    }
}

impl ProcPanelView {
    /// Whether a row passes the panel's filter.
    pub fn is_visible(&self, row: &ProcRow, show_system: bool) -> (r: bool)
        ensures
            r == row_visible(*row, show_system, self.search_query@),
    {
        if !show_system {
            let is_system = same_text(row.user.as_str(), "SYSTEM") || row.pid < 100;
            if is_system {
                return false;
            }
        }
        if self.search_query.as_str().unicode_len() == 0 {
            return true;
        }
        let query = to_lowercase(self.search_query.as_str());
        let name = to_lowercase(row.name.as_str());
        let user = to_lowercase(row.user.as_str());
        lowered_query_names_row(name.as_str(), row.pid, user.as_str(), query.as_str())
    }

    /// The positions of the rows to list, in display order: exactly the
    /// visible rows, each once, ordered by the chosen column in the chosen
    /// direction, rows with equal keys in the order they were given.
    pub fn visible_order(&self, rows: &Vec<ProcRow>, show_system: bool) -> (order: Vec<usize>)
        ensures
            forall|i: int| #![trigger order@.contains(i as usize)]
                0 <= i < rows@.len() ==> (order@.contains(i as usize) <==> row_visible(
                    rows@[i],
                    show_system,
                    self.search_query@,
                )),
            forall|k: int| 0 <= k < order@.len() ==> #[trigger] order@[k] < rows@.len(),
            order@.no_duplicates(),
            stably_sorted(order@, sort_keys(rows@, self.sort_col), self.sort_desc),
    {
        let n = rows.len();
        let mut keys: Vec<Vec<u64>> = Vec::new();
        let mut vis: Vec<usize> = Vec::new();
        for i in 0..n
            invariant
                n == rows@.len(),
                keys@.len() == i,
                forall|j: int| 0 <= j < i ==> #[trigger] keys@[j]@ == sort_key(rows@[j], self.sort_col),
                forall|j: int| 0 <= j < vis@.len() ==> #[trigger] vis@[j] < i,
                forall|a: int, b: int| 0 <= a < b < vis@.len() ==> #[trigger] vis@[a] < #[trigger] vis@[b],
                forall|j: int| 0 <= j < i ==> (vis@.contains(j as usize) <==> row_visible(
                    #[trigger] rows@[j],
                    show_system,
                    self.search_query@,
                )),
        {
            keys.push(row_key(&rows[i], self.sort_col));
            let ghost old_vis = vis@;
            if self.is_visible(&rows[i], show_system) {
                vis.push(i);
            }
            proof {
                assert forall|j: int| 0 <= j < i + 1 implies (vis@.contains(j as usize) <==> row_visible(
                    #[trigger] rows@[j],
                    show_system,
                    self.search_query@,
                )) by {
                    if j < i {
                        if vis@.contains(j as usize) {
                            let k = choose|k: int| 0 <= k < vis@.len() && vis@[k] == j as usize;
                            if k == old_vis.len() {
                            } else {
                                assert(old_vis[k] == j as usize);
                            }
                        }
                        if old_vis.contains(j as usize) {
                            let k = choose|k: int| 0 <= k < old_vis.len() && old_vis[k] == j as usize;
                            assert(vis@[k] == j as usize);
                        }
                    } else {
                        if vis@.contains(j as usize) {
                            let k = choose|k: int| 0 <= k < vis@.len() && vis@[k] == j as usize;
                            if k < old_vis.len() {
                                assert(old_vis[k] < i);
                            }
                        }
                        if row_visible(rows@[j], show_system, self.search_query@) {
                            assert(vis@[vis@.len() - 1] == i);
                        }
                    }
                }
            }
        }
        proof {
            assert(key_views(keys@) =~= sort_keys(rows@, self.sort_col));
            assert(vis@.no_duplicates()) by {
                assert forall|a: int, b: int| 0 <= a < vis@.len() && 0 <= b < vis@.len() && a != b
                    implies vis@[a] != vis@[b] by {
                    if a < b {
                        assert(vis@[a] < vis@[b]);
                    } else {
                        assert(vis@[b] < vis@[a]);
                    }
                }
            }
        }
        let order = sort_positions_within(&vis, &keys, self.sort_desc);
        proof {
            broadcast use vstd::seq_lib::group_to_multiset_ensures;
            vis@.lemma_multiset_has_no_duplicates();
            order@.lemma_multiset_has_no_duplicates_conv();
            assert forall|i: int| 0 <= i < rows@.len() implies (#[trigger] order@.contains(i as usize)
                <==> vis@.contains(i as usize)) by {
                assert(order@.to_multiset().count(i as usize) == vis@.to_multiset().count(i as usize));
            }
        }
        order
    }

    /// Applies one user event to the panel and returns the action it asks
    /// for, if any.
    pub fn handle(&mut self, event: ProcPanelEvent, focused: Option<u32>) -> (action: Option<ProcAction>)
        ensures
            (*final(self), action) == after_event(*old(self), event, focused),
    {
        match event {
            ProcPanelEvent::EditSearch(q) => {
                self.search_query = q;
                None
            },
            ProcPanelEvent::ToggleSortOrder => {
                self.sort_desc = !self.sort_desc;
                None
            },
            ProcPanelEvent::ChooseSortColumn(c) => {
                self.sort_col = c;
                None
            },
            ProcPanelEvent::SelectRow(pid) => {
                self.selected_pid = Some(pid);
                None
            },
            ProcPanelEvent::PinRow(pid, name, user) => {
                let is_focused = match focused {
                    Some(f) => f == pid,
                    None => false,
                };
                if is_focused {
                    Some(ProcAction::Unfocus)
                } else {
                    Some(ProcAction::Focus(pid, name, user))
                }
            },
            ProcPanelEvent::UnpinFocused => {
                if focused.is_some() {
                    Some(ProcAction::Unfocus)
                } else {
                    None
                }
            },
            ProcPanelEvent::RequestKill(pid, name) => {
                self.kill_confirm_pid = Some((pid, name));
                None
            },
            ProcPanelEvent::ConfirmKill => {
                let pending = match &self.kill_confirm_pid {
                    Some((pid, _)) => Some(*pid),
                    None => None,
                };
                match pending {
                    Some(pid) => {
                        self.kill_confirm_pid = None;
                        Some(ProcAction::Kill(pid))
                    },
                    None => None,
                }
            },
            ProcPanelEvent::CancelKill => {
                self.kill_confirm_pid = None;
                None
            },
        }
    }

    /// How a row's PID is highlighted: the pinned process first, then the
    /// selected one.
    pub fn row_mark(&self, pid: u32, focused: Option<u32>) -> (m: RowMark)
        ensures
            m == if focused == Some(pid) {
                RowMark::Focused
            } else if self.selected_pid == Some(pid) {
                RowMark::Selected
            } else {
                RowMark::Plain
            },
    {
        let is_focused = match focused {
            Some(f) => f == pid,
            None => false,
        };
        let is_selected = match self.selected_pid {
            Some(s) => s == pid,
            None => false,
        };
        if is_focused {
            RowMark::Focused
        } else if is_selected {
            RowMark::Selected
        } else {
            RowMark::Plain
        }
    }
}

/// Killing takes two steps: an event yields a kill of `pid` only when it is
/// the confirmation and a kill of that very `pid` was requested before; the
/// request itself never kills.
pub proof fn lemma_kill_needs_confirmation(v: ProcPanelView, e: ProcPanelEvent, focused: Option<u32>, pid: u32)
    requires
        after_event(v, e, focused).1 == Some(ProcAction::Kill(pid)),
    ensures
        e is ConfirmKill,
        v.kill_confirm_pid is Some,
        (v.kill_confirm_pid->0).0 == pid,
        after_event(v, e, focused).0.kill_confirm_pid is None,
{
}

/// After a kill request, confirming kills exactly the requested process and
/// closes the confirmation; dismissing it kills nothing.
pub proof fn lemma_request_then_confirm(v: ProcPanelView, pid: u32, name: String, focused: Option<u32>)
    ensures
        ({
            let asked = after_event(v, ProcPanelEvent::RequestKill(pid, name), focused).0;
            &&& after_event(asked, ProcPanelEvent::ConfirmKill, focused).1 == Some(ProcAction::Kill(pid))
            &&& after_event(asked, ProcPanelEvent::ConfirmKill, focused).0.kill_confirm_pid is None
            &&& after_event(asked, ProcPanelEvent::CancelKill, focused).1 is None
            &&& after_event(after_event(asked, ProcPanelEvent::CancelKill, focused).0, ProcPanelEvent::ConfirmKill, focused).1 is None
        }),
{
}

/// Pinning toggles: pinning the pinned process unpins it, pinning another
/// process focuses that one.
pub proof fn lemma_pin_toggles(v: ProcPanelView, pid: u32, name: String, user: String, focused: Option<u32>)
    ensures
        focused == Some(pid) ==> after_event(v, ProcPanelEvent::PinRow(pid, name, user), focused).1 == Some(ProcAction::Unfocus),
        focused != Some(pid) ==> after_event(v, ProcPanelEvent::PinRow(pid, name, user), focused).1 == Some(ProcAction::Focus(pid, name, user)),
{
}

/// Pin actions follow the pinned process: an event asks to unpin only while
/// a process is pinned, and asks to pin only a process that is not already
/// the pinned one.
pub proof fn lemma_pin_actions_follow_focus(v: ProcPanelView, e: ProcPanelEvent, focused: Option<u32>)
    ensures
        after_event(v, e, focused).1 == Some(ProcAction::Unfocus) ==> focused is Some,
        forall|pid: u32, name: String, user: String|
            after_event(v, e, focused).1 == Some(ProcAction::Focus(pid, name, user)) ==> focused != Some(pid),
{
}

/// Toggling the sort direction twice restores the panel.
pub proof fn lemma_sort_toggle_involution(v: ProcPanelView, focused: Option<u32>)
    ensures
        after_event(after_event(v, ProcPanelEvent::ToggleSortOrder, focused).0, ProcPanelEvent::ToggleSortOrder, focused).0 == v,
{
}

/// With system processes shown and an empty search box, every process is
/// listed; hiding system processes hides exactly those.
pub proof fn lemma_empty_query_lists_everything(row: ProcRow, show_system: bool)
    ensures
        row_visible(row, show_system, Seq::<char>::empty()) == (show_system || !is_system_process(row)),
{
}

/// While system processes are hidden, a process run by the user "SYSTEM" is
/// never listed, whatever its PID and whatever the search text; nor is any
/// process with a PID below 100.
pub proof fn lemma_hidden_system_processes(row: ProcRow, query: Seq<char>)
    ensures
        row.user@ == "SYSTEM"@ ==> !row_visible(row, false, query),
        row.pid < 100 ==> !row_visible(row, false, query),
{
}

/// A process that is not a system process, or any process while system
/// processes are shown, is listed when the search box is empty, and when the
/// lower-cased query occurs in its lower-cased name, its decimal PID or its
/// lower-cased user.
pub proof fn lemma_matching_rows_are_listed(row: ProcRow, show_system: bool, query: Seq<char>)
    requires
        show_system || (row.user@ != "SYSTEM"@ && row.pid >= 100),
    ensures
        query.len() == 0 ==> row_visible(row, show_system, query),
        contains_seq(lowercase(row.name@), lowercase(query)) ==> row_visible(row, show_system, query),
        contains_seq(decimal(row.pid as nat), lowercase(query)) ==> row_visible(row, show_system, query),
        contains_seq(lowercase(row.user@), lowercase(query)) ==> row_visible(row, show_system, query),
{
}

/// A listed row passes the search: the query is empty or, lower-cased, occurs
/// in the lower-cased name, the decimal PID or the lower-cased user.
pub proof fn lemma_listed_rows_match(row: ProcRow, show_system: bool, query: Seq<char>)
    requires
        row_visible(row, show_system, query),
    ensures
        show_system || (row.user@ != "SYSTEM"@ && row.pid >= 100),
        query.len() == 0 || contains_seq(lowercase(row.name@), lowercase(query))
            || contains_seq(decimal(row.pid as nat), lowercase(query))
            || contains_seq(lowercase(row.user@), lowercase(query)),
{
}

/// What each panel event changes, field by field; every field not named
/// keeps its value.
pub proof fn lemma_event_effects(v: ProcPanelView, e: ProcPanelEvent, focused: Option<u32>)
    ensures
        ({
            let (n, a) = after_event(v, e, focused);
            &&& e matches ProcPanelEvent::EditSearch(q) ==> n.search_query == q && n.sort_col == v.sort_col
                && n.sort_desc == v.sort_desc && n.selected_pid == v.selected_pid
                && n.kill_confirm_pid == v.kill_confirm_pid && a is None
            &&& e is ToggleSortOrder ==> n.sort_desc == !v.sort_desc && n.sort_col == v.sort_col
                && n.search_query == v.search_query && n.selected_pid == v.selected_pid
                && n.kill_confirm_pid == v.kill_confirm_pid && a is None
            &&& e matches ProcPanelEvent::ChooseSortColumn(c) ==> n.sort_col == c && n.sort_desc == v.sort_desc
                && n.search_query == v.search_query && n.selected_pid == v.selected_pid
                && n.kill_confirm_pid == v.kill_confirm_pid && a is None
            &&& e matches ProcPanelEvent::SelectRow(pid) ==> n.selected_pid == Some(pid) && n.sort_col == v.sort_col
                && n.sort_desc == v.sort_desc && n.search_query == v.search_query
                && n.kill_confirm_pid == v.kill_confirm_pid && a is None
            &&& e is PinRow ==> n == v
            &&& e is UnpinFocused ==> n == v && (a == Some(ProcAction::Unfocus) <==> focused is Some)
                && (focused is None ==> a is None)
            &&& e matches ProcPanelEvent::RequestKill(pid, name) ==> n.kill_confirm_pid == Some((pid, name))
                && n.sort_col == v.sort_col && n.sort_desc == v.sort_desc && n.search_query == v.search_query
                && n.selected_pid == v.selected_pid && a is None
            &&& e is CancelKill ==> n.kill_confirm_pid is None && n.sort_col == v.sort_col
                && n.sort_desc == v.sort_desc && n.search_query == v.search_query
                && n.selected_pid == v.selected_pid && a is None
            &&& e is ConfirmKill ==> n.kill_confirm_pid is None && n.sort_col == v.sort_col
                && n.sort_desc == v.sort_desc && n.search_query == v.search_query
                && n.selected_pid == v.selected_pid
            &&& !(e is ConfirmKill) ==> !(a matches Some(ProcAction::Kill(_)))
        }),
{
}

/// In a listing sorted by CPU load, memory, PID or disk I/O, each row comes
/// no later than the next in the chosen direction: ascending, its value is
/// at most the next one's; descending, at least.
pub proof fn lemma_numeric_columns_ordered(
    rows: Seq<ProcRow>,
    order: Seq<usize>,
    col: SortColumn,
    desc: bool,
    i: int,
    j: int,
)
    requires
        stably_sorted(order, sort_keys(rows, col), desc),
        0 <= i < j < order.len(),
    ensures
        ({
            let a = rows[order[i] as int];
            let b = rows[order[j] as int];
            &&& col == SortColumn::Pid ==> if desc { a.pid >= b.pid } else { a.pid <= b.pid }
            &&& col == SortColumn::Memory ==> if desc { a.mem_bytes >= b.mem_bytes } else { a.mem_bytes <= b.mem_bytes }
            &&& col == SortColumn::Cpu ==> if desc { a.cpu_key >= b.cpu_key } else { a.cpu_key <= b.cpu_key }
            &&& col == SortColumn::DiskIo ==> if desc { a.io_key >= b.io_key } else { a.io_key <= b.io_key }
        }),
{
    let ks = sort_keys(rows, col);
    let oi = order[i];
    let oj = order[j];
    assert(directed_order(ks[oi as int], ks[oj as int], desc) != KeyOrder::Greater);
    assert(ks[oi as int] == sort_key(rows[oi as int], col));
    assert(ks[oj as int] == sort_key(rows[oj as int], col));
}

} // verus!
