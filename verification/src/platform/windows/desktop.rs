//! Decisions of the Windows backend about desktop windows and monitors: which windows are
//! offered, how a window and a monitor are described, the order of both lists, how a window
//! is placed or raised, and the size of a window icon.
use vstd::prelude::*;
use crate::models::{Bounds, MonitorInfo, MonitorInfoView, WindowInfo, WindowInfoView};
use crate::platform::windows::{
    bounds_from_rect, excluded_window, format_handle, id_of_handle, rect_size_fits, should_exclude_window, Rect,
};
use crate::sorting::{insert_by, lemma_stable_sort_by, sort_pos_by, sorted_by, stable_sort_by, total_preorder};
use crate::text::{
    chars_of, is_blank_str, to_lowercase, trim, trimmed, unicode_lowercase,
};

verus! {

broadcast use vstd::seq_lib::group_seq_properties;

pub const SWP_NOSIZE: u32 = 0x0001;
pub const SWP_NOMOVE: u32 = 0x0002;
pub const SWP_NOACTIVATE: u32 = 0x0010;
pub const SWP_SHOWWINDOW: u32 = 0x0040;
pub const SWP_NOOWNERZORDER: u32 = 0x0200;
pub const WS_EX_TOOLWINDOW: u32 = 0x0080;

/// Where a window goes in the stacking order.
#[derive(Clone, Copy, Debug, PartialEq, Eq, Structural)]
pub enum ZOrder {
    TopMost,
    NotTopMost,
    Top,
}

/// One positioning of a window (`SetWindowPos`): its place in the stacking order, its
/// rectangle and the flags.
#[derive(Clone, Copy, Debug, PartialEq, Eq, Structural)]
pub struct WindowPosCall {
    pub insert_after: ZOrder,
    pub x: i32,
    pub y: i32,
    pub width: i32,
    pub height: i32,
    pub flags: u32,
}

/// How a window is placed: restored first when it is minimized or maximized, then
/// positioned by each call in turn (the first failing call ends the placement).
#[derive(Debug)]
pub struct WindowPlacement {
    pub restore_first: bool,
    pub calls: Vec<WindowPosCall>,
}

/// A positioning that shows the window without activating it.
pub open spec fn show_call(insert_after: ZOrder, x: i32, y: i32, width: i32, height: i32, extra_flags: u32)
    -> WindowPosCall {
    WindowPosCall {
        insert_after,
        x,
        y,
        width,
        height,
        flags: SWP_SHOWWINDOW | extra_flags | SWP_NOACTIVATE | SWP_NOOWNERZORDER,
    }
}

/// `v`, or 1 when it is smaller.
pub open spec fn at_least_one(v: i32) -> i32 {
    if v < 1 {
        1
    } else {
        v
    }
}

/// The positionings that move a window to `bounds` (each side at least one pixel): above
/// every window, released from the topmost band, then at the top of the ordinary windows.
pub open spec fn move_resize_calls(bounds: Bounds) -> Seq<WindowPosCall> {
    let w = at_least_one(bounds.width);
    let h = at_least_one(bounds.height);
    seq![
        show_call(ZOrder::TopMost, bounds.x, bounds.y, w, h, 0),
        show_call(ZOrder::NotTopMost, bounds.x, bounds.y, w, h, 0),
        show_call(ZOrder::Top, bounds.x, bounds.y, w, h, 0),
    ]
}

/// The positionings that raise a window without moving or resizing it: above every window,
/// at the top of the ordinary windows, then released from the topmost band.
pub open spec fn bring_to_front_calls() -> Seq<WindowPosCall> {
    seq![
        show_call(ZOrder::TopMost, 0, 0, 0, 0, SWP_NOMOVE | SWP_NOSIZE),
        show_call(ZOrder::Top, 0, 0, 0, 0, SWP_NOMOVE | SWP_NOSIZE),
        show_call(ZOrder::NotTopMost, 0, 0, 0, 0, SWP_NOMOVE | SWP_NOSIZE),
    ]
}

fn show(insert_after: ZOrder, x: i32, y: i32, width: i32, height: i32, extra_flags: u32) -> (c: WindowPosCall)
    ensures
        c == show_call(insert_after, x, y, width, height, extra_flags),
{
    WindowPosCall {
        insert_after,
        x,
        y,
        width,
        height,
        flags: SWP_SHOWWINDOW | extra_flags | SWP_NOACTIVATE | SWP_NOOWNERZORDER,
    }
}

/// How a window that is `minimized` or `maximized` (or neither) is moved to `bounds`; see
/// `move_resize_calls`.
pub fn move_resize_plan(bounds: &Bounds, minimized: bool, maximized: bool) -> (p: WindowPlacement)
    ensures
        p.restore_first == (minimized || maximized),
        p.calls@ == move_resize_calls(*bounds),
{
    let w = if bounds.width < 1 { 1 } else { bounds.width };
    let h = if bounds.height < 1 { 1 } else { bounds.height };
    let mut calls: Vec<WindowPosCall> = Vec::new();
    calls.push(show(ZOrder::TopMost, bounds.x, bounds.y, w, h, 0));
    calls.push(show(ZOrder::NotTopMost, bounds.x, bounds.y, w, h, 0));
    calls.push(show(ZOrder::Top, bounds.x, bounds.y, w, h, 0));
    assert(calls@ =~= move_resize_calls(*bounds));
    WindowPlacement { restore_first: minimized || maximized, calls }
}

/// How a window that is `minimized` or `maximized` (or neither) is raised; see
/// `bring_to_front_calls`.
pub fn bring_to_front_plan(minimized: bool, maximized: bool) -> (p: WindowPlacement)
    ensures
        p.restore_first == (minimized || maximized),
        p.calls@ == bring_to_front_calls(),
{
    let mut calls: Vec<WindowPosCall> = Vec::new();
    calls.push(show(ZOrder::TopMost, 0, 0, 0, 0, SWP_NOMOVE | SWP_NOSIZE));
    calls.push(show(ZOrder::Top, 0, 0, 0, 0, SWP_NOMOVE | SWP_NOSIZE));
    calls.push(show(ZOrder::NotTopMost, 0, 0, 0, 0, SWP_NOMOVE | SWP_NOSIZE));
    assert(calls@ =~= bring_to_front_calls());
    WindowPlacement { restore_first: minimized || maximized, calls }
}

/// Whether a top-level window is offered for mirroring: it is alive and visible, has a
/// title, belongs to another process than the control panel, is no tool window and is not
/// cloaked.
pub open spec fn candidate_window(alive: bool, visible: bool, title_length: i32, pid: u32, own_pid: u32,
    ex_style: u32, cloaked: bool) -> bool {
    alive && visible && title_length > 0 && pid != own_pid && ex_style & WS_EX_TOOLWINDOW == 0 && !cloaked
}

/// Whether a top-level window is offered for mirroring; see `candidate_window`.
pub fn is_candidate_window(alive: bool, visible: bool, title_length: i32, pid: u32, own_pid: u32, ex_style: u32,
    cloaked: bool) -> (b: bool)
    ensures
        b == candidate_window(alive, visible, title_length, pid, own_pid, ex_style, cloaked),
{
    if !alive || !visible {
        return false;
    }
    if title_length <= 0 {
        return false;
    }
    if pid == own_pid {
        return false;
    }
    if ex_style & WS_EX_TOOLWINDOW != 0 {
        return false;
    }
    !cloaked
}

/// The title of a window from its text: the text trimmed, or nothing when that is empty.
pub fn window_title(text: &str) -> (title: Option<String>)
    ensures
        title is None <==> trimmed(text@).len() == 0,
        title matches Some(t) ==> t@ == trimmed(text@),
{
    if is_blank_str(text) {
        None
    } else {
        Some(trim(text))
    }
}

/// The description of a listed window, or nothing when it is left out (see
/// `excluded_window`): its id and monitor id are the handles' ids (no monitor for a null
/// handle), its native handle the handle's bits, and its icon the `data:` URL read from its
/// executable, when one could be read.
pub open spec fn window_description(hwnd: usize, title: Seq<char>, pid: u32, rect: Bounds, monitor: usize,
    process_name: Option<Seq<char>>, icon_data_url: Option<Seq<char>>, visible: bool, minimized: bool)
    -> Option<WindowInfoView> {
    if excluded_window(title, process_name) {
        None
    } else {
        Some(WindowInfoView {
            id: id_of_handle(hwnd as nat),
            native_handle: hwnd as i64,
            title,
            process_name,
            icon_data_url,
            pid,
            monitor_id: if monitor == 0 { None } else { Some(id_of_handle(monitor as nat)) },
            rect,
            is_visible: visible,
            is_minimized: minimized,
        })
    }
}

/// The description of a listed window; see `window_description`. `icon_data_url` is the icon
/// of the window's executable, as `icon_data_url` encodes it.
pub fn describe_window(hwnd: usize, title: String, pid: u32, rect: Bounds, monitor: usize,
    process_name: Option<String>, icon_data_url: Option<String>, visible: bool, minimized: bool)
    -> (w: Option<WindowInfo>)
    ensures
        w.deep_view() == window_description(hwnd, title@, pid, rect, monitor, process_name.deep_view(),
            icon_data_url.deep_view(), visible, minimized),
{
    let excluded = match &process_name {
        Some(p) => should_exclude_window(title.as_str(), Some(p.as_str())),
        None => should_exclude_window(title.as_str(), None),
    };
    if excluded {
        return None;
    }
    let monitor_id = if monitor == 0 { None } else { Some(format_handle(monitor)) };
    Some(WindowInfo {
        id: format_handle(hwnd),
        native_handle: hwnd as i64,
        title,
        process_name,
        icon_data_url,
        pid,
        monitor_id,
        rect,
        is_visible: visible,
        is_minimized: minimized,
    })
}

/// The size at which a window icon is drawn from its bitmap: at least one pixel each way;
/// an icon without a colour bitmap stacks its two masks, so half the height.
pub open spec fn icon_size_of(bitmap_width: i32, bitmap_height: i32, has_color: bool) -> (i32, i32) {
    let h = at_least_one(bitmap_height);
    (at_least_one(bitmap_width), if has_color { h } else { at_least_one((h / 2) as i32) })
}

/// The size at which a window icon is drawn; see `icon_size_of`.
pub fn icon_size(bitmap_width: i32, bitmap_height: i32, has_color: bool) -> (size: (i32, i32))
    ensures
        size == icon_size_of(bitmap_width, bitmap_height, has_color),
{
    let width = if bitmap_width < 1 { 1 } else { bitmap_width };
    let mut height = if bitmap_height < 1 { 1 } else { bitmap_height };
    if !has_color {
        let half = height / 2;
        height = if half < 1 { 1 } else { half };
    }
    (width, height)
}

/// The text that UTF-16 units encode, as `String::from_utf16_lossy` documents it: a unit
/// outside the surrogate range is its own character; a leading surrogate followed by a
/// trailing one is the pair's supplementary character; any other surrogate unit is replaced
/// by U+FFFD on its own, and decoding goes on with the next unit.
pub open spec fn utf16_lossy(units: Seq<u16>) -> Seq<char>
    decreases units.len(),
{
    if units.len() == 0 {
        Seq::empty()
    } else {
        let u = units[0] as int;
        if u < 0xD800 || u > 0xDFFF {
            seq![u as char] + utf16_lossy(units.skip(1))
        } else if u <= 0xDBFF && units.len() >= 2 && 0xDC00 <= units[1] <= 0xDFFF {
            let c = 0x10000 + (u - 0xD800) * 0x400 + (units[1] - 0xDC00);
            seq![c as char] + utf16_lossy(units.skip(2))
        } else {
            seq!['\u{FFFD}'] + utf16_lossy(units.skip(1))
        }
    }
}

/// `String::from_utf16_lossy`: decodes UTF-16, replacing invalid data with U+FFFD. The
/// contract claims that the result is `utf16_lossy` of the units.
#[verifier::external_body]
fn decode_utf16_lossy(units: &[u16]) -> (s: String)
    ensures
        s@ == utf16_lossy(units@),
{
    String::from_utf16_lossy(units)
}

/// Position of the first zero unit (the end of a NUL-terminated text), or the length.
pub open spec fn nul_index(units: Seq<u16>, k: int) -> int
    decreases units.len() - k,
{
    if k < 0 || k >= units.len() {
        units.len() as int
    } else if units[k] == 0 {
        k
    } else {
        nul_index(units, k + 1)
    }
}

/// The text of a NUL-terminated UTF-16 buffer, trimmed.
pub fn utf16_buffer_to_string(buffer: &[u16]) -> (s: String)
    ensures
        s@ == trimmed(utf16_lossy(buffer@.take(nul_index(buffer@, 0)))),
{
    let mut units: Vec<u16> = Vec::new();
    let mut i: usize = 0;
    while i < buffer.len() && buffer[i] != 0
        invariant
            i <= buffer@.len(),
            nul_index(buffer@, 0) == nul_index(buffer@, i as int),
            units@ == buffer@.take(i as int),
        decreases buffer@.len() - i,
    {
        units.push(buffer[i]);
        assert(buffer@.take(i + 1) == buffer@.take(i as int).push(buffer@[i as int]));
        i = i + 1;
    }
    assert(nul_index(buffer@, i as int) == i);
    let decoded = decode_utf16_lossy(units.as_slice());
    trim(decoded.as_str())
}

/// The description of a monitor: its handle's id, its device name, its area and work area,
/// whether it is the primary monitor (any flag set), and its DPI (96 when unknown).
pub open spec fn monitor_description(handle: usize, device: Seq<u16>, monitor_rect: Rect, work_rect: Rect,
    flags: u32, dpi: Option<u32>) -> MonitorInfoView {
    MonitorInfoView {
        id: id_of_handle(handle as nat),
        name: trimmed(utf16_lossy(device.take(nul_index(device, 0)))),
        rect: Bounds {
            x: monitor_rect.left,
            y: monitor_rect.top,
            width: (monitor_rect.right - monitor_rect.left) as i32,
            height: (monitor_rect.bottom - monitor_rect.top) as i32,
        },
        work_area: Bounds {
            x: work_rect.left,
            y: work_rect.top,
            width: (work_rect.right - work_rect.left) as i32,
            height: (work_rect.bottom - work_rect.top) as i32,
        },
        is_primary: flags != 0,
        dpi: match dpi {
            Some(d) => d,
            None => 96,
        },
    }
}

/// The description of a monitor; see `monitor_description`.
pub fn describe_monitor(handle: usize, device: &[u16], monitor_rect: Rect, work_rect: Rect, flags: u32,
    dpi: Option<u32>) -> (m: MonitorInfo)
    requires
        rect_size_fits(monitor_rect),
        rect_size_fits(work_rect),
    ensures
        m@ == monitor_description(handle, device@, monitor_rect, work_rect, flags, dpi),
{
    MonitorInfo {
        id: format_handle(handle),
        name: utf16_buffer_to_string(device),
        rect: bounds_from_rect(&monitor_rect),
        work_area: bounds_from_rect(&work_rect),
        is_primary: flags != 0,
        dpi: match dpi {
            Some(d) => d,
            None => 96,
        },
    }
}

/// `a` comes no later than `b` in the order of `str`'s comparison: character by character,
/// a prefix first.
pub open spec fn text_le(a: Seq<char>, b: Seq<char>) -> bool
    decreases a.len(),
{
    if a.len() == 0 {
        true
    } else if b.len() == 0 {
        false
    } else if a[0] != b[0] {
        a[0] < b[0]
    } else {
        text_le(a.skip(1), b.skip(1))
    }
}

fn chars_le(a: &Vec<char>, b: &Vec<char>) -> (r: bool)
    ensures
        r == text_le(a@, b@),
{
    let mut i: usize = 0;
    while i < a.len() && i < b.len() && a[i] == b[i]
        invariant
            i <= a@.len(),
            i <= b@.len(),
            text_le(a@, b@) == text_le(a@.skip(i as int), b@.skip(i as int)),
        decreases a@.len() - i,
    {
        assert(a@.skip(i as int).skip(1) =~= a@.skip(i + 1));
        assert(b@.skip(i as int).skip(1) =~= b@.skip(i + 1));
        i = i + 1;
    }
    if i == a.len() {
        true
    } else if i == b.len() {
        false
    } else {
        a[i] < b[i]
    }
}

/// Windows are listed by their lower-case titles.
pub open spec fn window_order() -> spec_fn(WindowInfoView, WindowInfoView) -> bool {
    |a: WindowInfoView, b: WindowInfoView| text_le(unicode_lowercase(a.title), unicode_lowercase(b.title))
}

/// The primary monitor is listed first, then monitors by name.
pub open spec fn monitor_order() -> spec_fn(MonitorInfoView, MonitorInfoView) -> bool {
    |a: MonitorInfoView, b: MonitorInfoView| (a.is_primary && !b.is_primary) || (a.is_primary == b.is_primary
        && text_le(a.name, b.name))
}

/// The windows ordered by their lower-case titles; windows whose titles compare equal keep
/// their order.
pub fn sort_windows(windows: Vec<WindowInfo>) -> (sorted: Vec<WindowInfo>)
    ensures
        sorted.deep_view() == stable_sort_by(windows.deep_view(), window_order()),
{
    let ghost all = windows.deep_view();
    let mut sorted: Vec<WindowInfo> = Vec::new();
    let mut keys: Vec<Vec<char>> = Vec::new();
    let mut i: usize = 0;
    while i < windows.len()
        invariant
            all == windows.deep_view(),
            i <= windows@.len(),
            sorted.deep_view() == stable_sort_by(all.take(i as int), window_order()),
            keys@.len() == sorted@.len(),
            forall|k: int| 0 <= k < keys@.len() ==> #[trigger] keys@[k]@ == unicode_lowercase(sorted@[k]@.title),
        decreases windows@.len() - i,
    {
        assert(all.take(i + 1).drop_last() == all.take(i as int));
        assert(all.take(i + 1).last() == windows@[i as int]@);
        let w = windows[i].clone();
        let key = chars_of(to_lowercase(w.title.as_str()).as_str());
        let ghost s = sorted.deep_view();
        let mut j: usize = 0;
        while j < sorted.len() && chars_le(&keys[j], &key)
            invariant
                s == sorted.deep_view(),
                keys@.len() == sorted@.len(),
                forall|k: int| 0 <= k < keys@.len() ==> #[trigger] keys@[k]@ == unicode_lowercase(sorted@[k]@.title),
                key@ == unicode_lowercase(w@.title),
                j <= sorted@.len(),
                sort_pos_by(s, w@, window_order(), 0) == sort_pos_by(s, w@, window_order(), j as int),
            decreases sorted@.len() - j,
        {
            assert(s[j as int] == sorted@[j as int]@);
            assert(keys@[j as int]@ == unicode_lowercase(sorted@[j as int]@.title));
            j = j + 1;
        }
        proof {
            if j < sorted@.len() {
                assert(s[j as int] == sorted@[j as int]@);
                assert(keys@[j as int]@ == unicode_lowercase(sorted@[j as int]@.title));
            }
        }
        let ghost keys_before = keys@;
        let ghost sorted_before = sorted@;
        sorted.insert(j, w);
        keys.insert(j, key);
        assert(sorted.deep_view() =~= insert_by(s, windows@[i as int]@, window_order()));
        assert forall|k: int| 0 <= k < keys@.len() implies #[trigger] keys@[k]@ == unicode_lowercase(
            sorted@[k]@.title,
        ) by {
            if k < j {
                assert(keys@[k] == keys_before[k] && sorted@[k] == sorted_before[k]);
            } else if k > j {
                assert(keys@[k] == keys_before[k - 1] && sorted@[k] == sorted_before[k - 1]);
            }
        }
        i = i + 1;
    }
    assert(all.take(i as int) == all);
    sorted
}

/// Whether `a` comes no later than `b` among monitors; see `monitor_order`.
fn monitor_le(a: &MonitorInfo, b: &MonitorInfo, a_name: &Vec<char>, b_name: &Vec<char>) -> (r: bool)
    requires
        a_name@ == a@.name,
        b_name@ == b@.name,
    ensures
        r == (monitor_order())(a@, b@),
{
    (a.is_primary && !b.is_primary) || (a.is_primary == b.is_primary && chars_le(a_name, b_name))
}

/// The monitors with the primary monitor first, then by name; monitors that compare equal
/// keep their order.
pub fn sort_monitors(monitors: Vec<MonitorInfo>) -> (sorted: Vec<MonitorInfo>)
    ensures
        sorted.deep_view() == stable_sort_by(monitors.deep_view(), monitor_order()),
{
    let ghost all = monitors.deep_view();
    let mut sorted: Vec<MonitorInfo> = Vec::new();
    let mut names: Vec<Vec<char>> = Vec::new();
    let mut i: usize = 0;
    while i < monitors.len()
        invariant
            all == monitors.deep_view(),
            i <= monitors@.len(),
            sorted.deep_view() == stable_sort_by(all.take(i as int), monitor_order()),
            names@.len() == sorted@.len(),
            forall|k: int| 0 <= k < names@.len() ==> #[trigger] names@[k]@ == sorted@[k]@.name,
        decreases monitors@.len() - i,
    {
        assert(all.take(i + 1).drop_last() == all.take(i as int));
        assert(all.take(i + 1).last() == monitors@[i as int]@);
        let m = monitors[i].clone();
        let name = chars_of(m.name.as_str());
        let ghost s = sorted.deep_view();
        let mut j: usize = 0;
        while j < sorted.len() && monitor_le(&sorted[j], &m, &names[j], &name)
            invariant
                s == sorted.deep_view(),
                names@.len() == sorted@.len(),
                forall|k: int| 0 <= k < names@.len() ==> #[trigger] names@[k]@ == sorted@[k]@.name,
                name@ == m@.name,
                j <= sorted@.len(),
                sort_pos_by(s, m@, monitor_order(), 0) == sort_pos_by(s, m@, monitor_order(), j as int),
            decreases sorted@.len() - j,
        {
            assert(s[j as int] == sorted@[j as int]@);
            j = j + 1;
        }
        proof {
            if j < sorted@.len() {
                assert(s[j as int] == sorted@[j as int]@);
            }
        }
        let ghost names_before = names@;
        let ghost sorted_before = sorted@;
        sorted.insert(j, m);
        names.insert(j, name);
        assert(sorted.deep_view() =~= insert_by(s, monitors@[i as int]@, monitor_order()));
        assert forall|k: int| 0 <= k < names@.len() implies #[trigger] names@[k]@ == sorted@[k]@.name by {
            if k < j {
                assert(names@[k] == names_before[k] && sorted@[k] == sorted_before[k]);
            } else if k > j {
                assert(names@[k] == names_before[k - 1] && sorted@[k] == sorted_before[k - 1]);
            }
        }
        i = i + 1;
    }
    assert(all.take(i as int) == all);
    sorted
}


proof fn lemma_text_le_total(a: Seq<char>, b: Seq<char>)
    ensures
        text_le(a, b) || text_le(b, a),
    decreases a.len(),
{
    if a.len() > 0 && b.len() > 0 && a[0] == b[0] {
        lemma_text_le_total(a.skip(1), b.skip(1));
    }
}

proof fn lemma_text_le_transitive(a: Seq<char>, b: Seq<char>, c: Seq<char>)
    requires
        text_le(a, b),
        text_le(b, c),
    ensures
        text_le(a, c),
    decreases a.len(),
{
    if a.len() > 0 && b.len() > 0 && c.len() > 0 && a[0] == b[0] && b[0] == c[0] {
        lemma_text_le_transitive(a.skip(1), b.skip(1), c.skip(1));
    }
}

/// Comparing texts is a total preorder, so windows and monitors can be listed in order.
proof fn lemma_orders_total()
    ensures
        total_preorder(window_order()),
        total_preorder(monitor_order()),
{
    assert forall|a: WindowInfoView, b: WindowInfoView| #[trigger] (window_order())(a, b) || (window_order())(b, a) by {
        lemma_text_le_total(unicode_lowercase(a.title), unicode_lowercase(b.title));
    }
    assert forall|a: WindowInfoView, b: WindowInfoView, c: WindowInfoView|
        #[trigger] (window_order())(a, b) && #[trigger] (window_order())(b, c) implies (window_order())(a, c) by {
        lemma_text_le_transitive(unicode_lowercase(a.title), unicode_lowercase(b.title), unicode_lowercase(c.title));
    }
    assert forall|a: MonitorInfoView, b: MonitorInfoView| #[trigger] (monitor_order())(a, b) || (monitor_order())(b, a) by {
        lemma_text_le_total(a.name, b.name);
    }
    assert forall|a: MonitorInfoView, b: MonitorInfoView, c: MonitorInfoView|
        #[trigger] (monitor_order())(a, b) && #[trigger] (monitor_order())(b, c) implies (monitor_order())(a, c) by {
        if a.is_primary == b.is_primary && b.is_primary == c.is_primary {
            lemma_text_le_transitive(a.name, b.name, c.name);
        }
    }
}

/// Windows are listed in the order of their lower-case titles, each window once.
pub proof fn lemma_windows_listed_by_title(windows: Seq<WindowInfoView>)
    ensures
        sorted_by(stable_sort_by(windows, window_order()), window_order()),
        stable_sort_by(windows, window_order()).to_multiset() == windows.to_multiset(),
{
    lemma_orders_total();
    lemma_stable_sort_by(windows, window_order());
}

/// Monitors are listed with every primary monitor before the others, each group by name,
/// each monitor once.
pub proof fn lemma_monitors_primary_first(monitors: Seq<MonitorInfoView>)
    ensures
        sorted_by(stable_sort_by(monitors, monitor_order()), monitor_order()),
        stable_sort_by(monitors, monitor_order()).to_multiset() == monitors.to_multiset(),
        forall|i: int, j: int| 0 <= i < j < monitors.len() && #[trigger] stable_sort_by(monitors, monitor_order())[j].is_primary
            ==> #[trigger] stable_sort_by(monitors, monitor_order())[i].is_primary,
{
    lemma_orders_total();
    lemma_stable_sort_by(monitors, monitor_order());
    let sorted = stable_sort_by(monitors, monitor_order());
    assert forall|i: int, j: int| 0 <= i < j < monitors.len() && #[trigger] sorted[j].is_primary
        implies #[trigger] sorted[i].is_primary by {
        assert((monitor_order())(sorted[i], sorted[j]));
    }
}

} // verus!
