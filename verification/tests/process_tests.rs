use btop_gui::process::{lowered_query_names_row, ProcAction, ProcPanelEvent, ProcPanelView, ProcRow, RowMark, SortColumn};

fn row(pid: u32, name: &str, user: &str, mem: u64, cpu: u64, io: u64) -> ProcRow {
    ProcRow {
        pid,
        name: name.to_string(),
        user: user.to_string(),
        mem_bytes: mem,
        cpu_key: cpu,
        io_key: io,
    }
}

fn sample_rows() -> Vec<ProcRow> {
    vec![
        row(4, "System", "SYSTEM", 100, 5, 0),
        row(1200, "chrome", "alice", 900, 30, 7),
        row(1300, "Code", "alice", 500, 30, 9),
        row(77, "init", "root", 50, 1, 1),
        row(2400, "bash", "bob", 500, 2, 9),
    ]
}

fn view(query: &str, col: SortColumn, desc: bool) -> ProcPanelView {
    let mut v = ProcPanelView::default();
    v.search_query = query.to_string();
    v.sort_col = col;
    v.sort_desc = desc;
    v
}

#[test]
fn default_panel_state() {
    let v = ProcPanelView::default();
    assert_eq!(v.search_query, "");
    assert_eq!(v.sort_col, SortColumn::Cpu);
    assert!(v.sort_desc);
    assert_eq!(v.selected_pid, None);
    assert_eq!(v.kill_confirm_pid, None);
}

#[test]
fn default_order_is_cpu_descending_and_stable() {
    let rows = sample_rows();
    let v = ProcPanelView::default();
    // cpu keys 5, 30, 30, 1, 2: the two 30s keep their input order
    assert_eq!(v.visible_order(&rows, true), vec![1, 2, 0, 4, 3]);
}

#[test]
fn ascending_memory_is_stable() {
    let rows = sample_rows();
    let v = view("", SortColumn::Memory, false);
    assert_eq!(v.visible_order(&rows, true), vec![3, 0, 2, 4, 1]);
    let d = view("", SortColumn::Memory, true);
    assert_eq!(d.visible_order(&rows, true), vec![1, 2, 4, 0, 3]);
}

#[test]
fn pid_order() {
    let rows = sample_rows();
    assert_eq!(view("", SortColumn::Pid, false).visible_order(&rows, true), vec![0, 3, 1, 2, 4]);
    assert_eq!(view("", SortColumn::Pid, true).visible_order(&rows, true), vec![4, 2, 1, 3, 0]);
}

#[test]
fn name_order_ignores_case() {
    let rows = sample_rows();
    // bash, chrome, Code, init, System
    assert_eq!(view("", SortColumn::Name, false).visible_order(&rows, true), vec![4, 1, 2, 3, 0]);
}

#[test]
fn disk_io_order() {
    let rows = sample_rows();
    assert_eq!(view("", SortColumn::DiskIo, true).visible_order(&rows, true), vec![2, 4, 1, 3, 0]);
}

#[test]
fn hiding_system_processes() {
    let rows = sample_rows();
    let v = view("", SortColumn::Pid, false);
    // "SYSTEM" user and PIDs below 100 are hidden
    assert_eq!(v.visible_order(&rows, false), vec![1, 2, 4]);
}

#[test]
fn search_matches_name_pid_and_user_ignoring_case() {
    let rows = sample_rows();
    assert_eq!(view("CHROME", SortColumn::Pid, false).visible_order(&rows, true), vec![1]);
    assert_eq!(view("ALICE", SortColumn::Pid, false).visible_order(&rows, true), vec![1, 2]);
    assert_eq!(view("300", SortColumn::Pid, false).visible_order(&rows, true), vec![2]);
    assert_eq!(view("00", SortColumn::Pid, false).visible_order(&rows, true), vec![1, 2, 4]);
    assert!(view("zzz", SortColumn::Pid, false).visible_order(&rows, true).is_empty());
}

#[test]
fn is_visible_single_rows() {
    let v = view("co", SortColumn::Cpu, true);
    assert!(v.is_visible(&row(1300, "Code", "alice", 0, 0, 0), true));
    assert!(!v.is_visible(&row(1301, "bash", "alice", 0, 0, 0), true));
    let all = ProcPanelView::default();
    assert!(!all.is_visible(&row(99, "x", "u", 0, 0, 0), false));
    assert!(all.is_visible(&row(100, "x", "u", 0, 0, 0), false));
}

#[test]
fn empty_list() {
    let v = ProcPanelView::default();
    assert!(v.visible_order(&Vec::new(), true).is_empty());
}

#[test]
fn kill_needs_confirmation() {
    let mut v = ProcPanelView::default();
    assert_eq!(v.handle(ProcPanelEvent::RequestKill(1200, "chrome".to_string()), None), None);
    assert_eq!(v.kill_confirm_pid, Some((1200, "chrome".to_string())));
    assert_eq!(v.handle(ProcPanelEvent::ConfirmKill, None), Some(ProcAction::Kill(1200)));
    assert_eq!(v.kill_confirm_pid, None);
    assert_eq!(v.handle(ProcPanelEvent::ConfirmKill, None), None);
}

#[test]
fn cancel_kill() {
    let mut v = ProcPanelView::default();
    v.handle(ProcPanelEvent::RequestKill(5, "x".to_string()), None);
    assert_eq!(v.handle(ProcPanelEvent::CancelKill, None), None);
    assert_eq!(v.kill_confirm_pid, None);
    assert_eq!(v.handle(ProcPanelEvent::ConfirmKill, None), None);
}

#[test]
fn pin_toggles_focus() {
    let mut v = ProcPanelView::default();
    let a = v.handle(ProcPanelEvent::PinRow(10, "n".to_string(), "u".to_string()), None);
    assert_eq!(a, Some(ProcAction::Focus(10, "n".to_string(), "u".to_string())));
    let b = v.handle(ProcPanelEvent::PinRow(10, "n".to_string(), "u".to_string()), Some(10));
    assert_eq!(b, Some(ProcAction::Unfocus));
    let c = v.handle(ProcPanelEvent::PinRow(11, "m".to_string(), "u".to_string()), Some(10));
    assert_eq!(c, Some(ProcAction::Focus(11, "m".to_string(), "u".to_string())));
    assert_eq!(v.handle(ProcPanelEvent::UnpinFocused, Some(10)), Some(ProcAction::Unfocus));
    assert_eq!(v.handle(ProcPanelEvent::UnpinFocused, None), None);
}

#[test]
fn sort_and_search_events() {
    let mut v = ProcPanelView::default();
    assert_eq!(v.handle(ProcPanelEvent::ToggleSortOrder, None), None);
    assert!(!v.sort_desc);
    v.handle(ProcPanelEvent::ToggleSortOrder, None);
    assert!(v.sort_desc);
    v.handle(ProcPanelEvent::ChooseSortColumn(SortColumn::Name), None);
    assert_eq!(v.sort_col, SortColumn::Name);
    v.handle(ProcPanelEvent::EditSearch("ba".to_string()), None);
    assert_eq!(v.search_query, "ba");
    v.handle(ProcPanelEvent::SelectRow(42), None);
    assert_eq!(v.selected_pid, Some(42));
}

#[test]
fn row_marks() {
    let mut v = ProcPanelView::default();
    v.selected_pid = Some(7);
    assert_eq!(v.row_mark(7, Some(7)), RowMark::Focused);
    assert_eq!(v.row_mark(7, Some(8)), RowMark::Selected);
    assert_eq!(v.row_mark(9, None), RowMark::Plain);
}

#[test]
fn descending_reverses_ascending_for_distinct_keys() {
    let rows = sample_rows();
    for col in [SortColumn::Pid, SortColumn::Name] {
        let mut asc = view("", col, false).visible_order(&rows, true);
        let desc = view("", col, true).visible_order(&rows, true);
        asc.reverse();
        assert_eq!(asc, desc);
    }
}

#[test]
fn lowered_query_matching() {
    assert!(lowered_query_names_row("firefox", 4242, "alice", "fox"));
    assert!(lowered_query_names_row("firefox", 4242, "alice", "424"));
    assert!(lowered_query_names_row("firefox", 4242, "alice", "lic"));
    assert!(!lowered_query_names_row("firefox", 4242, "alice", "bob"));
    assert!(!lowered_query_names_row("firefox", 4242, "alice", "FOX"));
}
