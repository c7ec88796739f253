//! Logic of the Windows backend that does not touch the Win32 API: window handle
//! identifiers, window filtering, rectangle conversion, the permission report and
//! the encoding of window icons.
pub mod desktop;
pub mod icon;
pub mod log_throttle;
pub mod runtime_report;
pub mod sync_runtime;
pub mod sync_targets;

use vstd::prelude::*;
use crate::models::{Bounds, PermissionStatus};
use crate::text::{
    ascii_lowercase, chars_of, hex_digit_char, hex_digits, is_white_space, leading_ws, push_hex,
    starts_with, str_eq, str_starts_with, to_ascii_lowercase, trailing_ws, trim, trimmed,
};

verus! {

/// Why an unsigned integer could not be read, as `core::num::IntErrorKind` reports it.
#[derive(Clone, Copy, Debug, PartialEq, Eq, Structural)]
pub enum IntErrorKind {
    Empty,
    InvalidDigit,
    PosOverflow,
}

/// The value of a hexadecimal digit in either case.
pub open spec fn hex_digit_value(c: char) -> Option<nat> {
    if '0' <= c && c <= '9' {
        Some((c as nat - '0' as nat) as nat)
    } else if 'a' <= c && c <= 'f' {
        Some((c as nat - 'a' as nat + 10) as nat)
    } else if 'A' <= c && c <= 'F' {
        Some((c as nat - 'A' as nat + 10) as nat)
    } else {
        None
    }
}

/// Reading hexadecimal digits left to right into a `usize`: the first character that is not
/// a digit, or the first digit that makes the value exceed `usize::MAX`, decides the error.
pub open spec fn scan_hex(s: Seq<char>) -> Result<nat, IntErrorKind>
    decreases s.len(),
{
    if s.len() == 0 {
        Ok(0)
    } else {
        match scan_hex(s.drop_last()) {
            Err(e) => Err(e),
            Ok(v) => match hex_digit_value(s.last()) {
                None => Err(IntErrorKind::InvalidDigit),
                Some(d) => if v * 16 + d > usize::MAX {
                    Err(IntErrorKind::PosOverflow)
                } else {
                    Ok(v * 16 + d)
                },
            },
        }
    }
}

/// `usize::from_str_radix(s, 16)`: an optional leading `+`, then at least one digit.
pub open spec fn parse_usize_hex(s: Seq<char>) -> Result<nat, IntErrorKind> {
    if s.len() == 0 {
        Err(IntErrorKind::Empty)
    } else if (s[0] == '+' || s[0] == '-') && s.len() == 1 {
        Err(IntErrorKind::InvalidDigit)
    } else if s[0] == '+' {
        scan_hex(s.skip(1))
    } else {
        scan_hex(s)
    }
}

/// `s` without a leading `0x` or `0X`.
pub open spec fn strip_hex_prefix(s: Seq<char>) -> Seq<char> {
    if s.len() >= 2 && s[0] == '0' && (s[1] == 'x' || s[1] == 'X') {
        s.skip(2)
    } else {
        s
    }
}

/// The native handle that a window id denotes: the trimmed id, without its `0x` prefix,
/// read as a hexadecimal `usize`.
pub open spec fn handle_of_id(window_id: Seq<char>) -> Result<nat, IntErrorKind> {
    parse_usize_hex(strip_hex_prefix(trimmed(window_id)))
}

/// The window id of a native handle: `0x` and the upper-case hexadecimal digits.
pub open spec fn id_of_handle(handle: nat) -> Seq<char> {
    seq!['0', 'x'] + hex_digits(handle)
}

/// A window id that could not be read as a native handle.
#[derive(Debug, PartialEq, Eq)]
pub struct HandleParseError {
    pub window_id: String,
    pub kind: IntErrorKind,
}

impl HandleParseError {
    /// The text shown for this error.
    pub fn message(&self) -> (m: String)
        ensures
            m@ == "Invalid native window handle '"@ + self.window_id@ + "': "@
                + int_error_text(self.kind),
    {
        let mut m = "Invalid native window handle '".to_owned();
        m.append(self.window_id.as_str());
        m.append("': ");
        match self.kind {
            IntErrorKind::Empty => m.append("cannot parse integer from empty string"),
            IntErrorKind::InvalidDigit => m.append("invalid digit found in string"),
            IntErrorKind::PosOverflow => m.append("number too large to fit in target type"),
        }
        m
    }
}

/// The text that `core::num::ParseIntError` displays for each kind.
pub open spec fn int_error_text(kind: IntErrorKind) -> Seq<char> {
    match kind {
        IntErrorKind::Empty => "cannot parse integer from empty string"@,
        IntErrorKind::InvalidDigit => "invalid digit found in string"@,
        IntErrorKind::PosOverflow => "number too large to fit in target type"@,
    }
}

/// The value of one hexadecimal digit.
fn hex_digit(c: char) -> (r: Option<usize>)
    ensures
        r.is_some() == hex_digit_value(c).is_some(),
        r matches Some(d) ==> d == hex_digit_value(c).unwrap(),
{
    if '0' <= c && c <= '9' {
        Some((c as u32 - '0' as u32) as usize)
    } else if 'a' <= c && c <= 'f' {
        Some((c as u32 - 'a' as u32 + 10) as usize)
    } else if 'A' <= c && c <= 'F' {
        Some((c as u32 - 'A' as u32 + 10) as usize)
    } else {
        None
    }
}

/// Reads hexadecimal digits into a `usize`.
fn scan_hex_digits(cs: &[char], start: usize) -> (r: Result<usize, IntErrorKind>)
    requires
        start <= cs@.len(),
    ensures
        match scan_hex(cs@.skip(start as int)) {
            Ok(v) => r == Ok::<usize, IntErrorKind>(v as usize),
            Err(e) => r == Err::<usize, IntErrorKind>(e),
        },
{
    let ghost digits = cs@.skip(start as int);
    let mut acc: usize = 0;
    let mut i: usize = start;
    while i < cs.len()
        invariant
            start <= i <= cs@.len(),
            digits == cs@.skip(start as int),
            scan_hex(digits.take(i - start)) == Ok::<nat, IntErrorKind>(acc as nat),
        decreases cs@.len() - i,
    {
        let ghost prefix = digits.take(i - start + 1);
        assert(prefix.drop_last() == digits.take(i - start));
        assert(prefix.last() == cs@[i as int]);
        let d = match hex_digit(cs[i]) {
            Some(d) => d,
            None => {
                proof { lemma_scan_hex_error_persists(digits, (i - start + 1) as nat); }
                return Err(IntErrorKind::InvalidDigit);
            },
        };
        let m = match acc.checked_mul(16) {
            Some(m) => m,
            None => {
                proof { lemma_scan_hex_error_persists(digits, (i - start + 1) as nat); }
                return Err(IntErrorKind::PosOverflow);
            },
        };
        acc = match m.checked_add(d) {
            Some(v) => v,
            None => {
                proof { lemma_scan_hex_error_persists(digits, (i - start + 1) as nat); }
                return Err(IntErrorKind::PosOverflow);
            },
        };
        i = i + 1;
    }
    assert(digits.take(i - start) == digits);
    Ok(acc)
}

/// Once the scan of a prefix fails, the scan of the whole fails the same way.
proof fn lemma_scan_hex_error_persists(s: Seq<char>, k: nat)
    requires
        k <= s.len(),
        scan_hex(s.take(k as int)) is Err,
    ensures
        scan_hex(s) == scan_hex(s.take(k as int)),
    decreases s.len() - k,
{
    if k < s.len() {
        let t = s.take(k as int + 1);
        assert(t.drop_last() == s.take(k as int));
        lemma_scan_hex_error_persists(s, k + 1);
    } else {
        assert(s.take(k as int) == s);
    }
}

/// The native handle denoted by a window id (`0x` prefix optional, surrounding white space
/// ignored).
pub fn parse_hwnd(window_id: &str) -> (r: Result<usize, HandleParseError>)
    ensures
        match handle_of_id(window_id@) {
            Ok(h) => r matches Ok(v) && v as nat == h,
            Err(k) => r matches Err(e) && e.kind == k && e.window_id@ == window_id@,
        },
{
    let t = trim(window_id);
    let cs = chars_of(t.as_str());
    let ghost ts = cs@;
    let start: usize = if cs.len() >= 2 && cs[0] == '0' && (cs[1] == 'x' || cs[1] == 'X') {
        2
    } else {
        0
    };
    let ghost hex = strip_hex_prefix(ts);
    assert(hex == ts.skip(start as int));
    let r = if start == cs.len() {
        Err(IntErrorKind::Empty)
    } else if (cs[start] == '+' || cs[start] == '-') && cs.len() - start == 1 {
        Err(IntErrorKind::InvalidDigit)
    } else if cs[start] == '+' {
        assert(hex.skip(1) == cs@.skip(start + 1));
        scan_hex_digits(&cs, start + 1)
    } else {
        scan_hex_digits(&cs, start)
    };
    match r {
        Ok(v) => Ok(v),
        Err(kind) => Err(HandleParseError { window_id: window_id.to_owned(), kind }),
    }
}

/// The window id of a native handle.
pub fn format_handle(handle: usize) -> (s: String)
    ensures
        s@ == id_of_handle(handle as nat),
{
    let mut s = "0x".to_owned();
    proof { reveal_strlit("0x"); }
    push_hex(&mut s, handle);
    s
}


proof fn lemma_hex_digit_roundtrip(d: nat)
    requires
        d < 16,
    ensures
        hex_digit_value(hex_digit_char(d)) == Some(d),
        !is_white_space(hex_digit_char(d)),
{
}

proof fn lemma_hex_digits_shape(n: nat)
    ensures
        hex_digits(n).len() >= 1,
        hex_digit_value(hex_digits(n)[0]) is Some,
        hex_digits(n)[0] != '+' && hex_digits(n)[0] != '-',
        !is_white_space(hex_digits(n).last()),
    decreases n,
{
    lemma_hex_digit_roundtrip(n % 16);
    if n >= 16 {
        lemma_hex_digits_shape(n / 16);
        assert(hex_digits(n)[0] == hex_digits(n / 16)[0]);
    } else {
        lemma_hex_digit_roundtrip(n);
    }
}

proof fn lemma_scan_hex_digits(n: nat)
    requires
        n <= usize::MAX,
    ensures
        scan_hex(hex_digits(n)) == Ok::<nat, IntErrorKind>(n),
    decreases n,
{
    lemma_hex_digit_roundtrip(n % 16);
    if n >= 16 {
        lemma_scan_hex_digits(n / 16);
        assert(hex_digits(n).drop_last() == hex_digits(n / 16));
        assert(hex_digits(n).last() == hex_digit_char(n % 16));
        assert((n / 16) * 16 + n % 16 == n);
    } else {
        assert(hex_digits(n).drop_last() == Seq::<char>::empty());
        assert(scan_hex(Seq::<char>::empty()) == Ok::<nat, IntErrorKind>(0));
        assert(hex_digits(n).last() == hex_digit_char(n));
    }
}

/// Reading back the id of a handle gives the handle: `parse_hwnd(format_handle(h)) == Ok(h)`.
pub proof fn lemma_handle_id_roundtrip(handle: usize)
    ensures
        handle_of_id(id_of_handle(handle as nat)) == Ok::<nat, IntErrorKind>(handle as nat),
{
    let id = id_of_handle(handle as nat);
    let digits = hex_digits(handle as nat);
    lemma_hex_digits_shape(handle as nat);
    lemma_scan_hex_digits(handle as nat);
    assert(id[0] == '0');
    assert(leading_ws(id) == 0);
    assert(id.last() == digits.last());
    assert(trailing_ws(id) == 0);
    assert(trimmed(id) == id);
    assert(strip_hex_prefix(id) == digits);
}


/// Process names whose windows are never offered for mirroring (terminals and shells).
pub open spec fn excluded_process_names() -> Seq<Seq<char>> {
    seq![
        "windowsterminal.exe"@,
        "powershell.exe"@,
        "pwsh.exe"@,
        "cmd.exe"@,
        "conhost.exe"@,
        "wezterm.exe"@,
        "alacritty.exe"@,
        "mintty.exe"@,
    ]
}

/// Whether a window is left out of the window list: the control panel's own window (titled
/// `Mirror Windows`, alone or followed by a space, in any case) or a terminal window.
pub open spec fn excluded_window(title: Seq<char>, process_name: Option<Seq<char>>) -> bool {
    let t = ascii_lowercase(trimmed(title));
    ||| t == "mirror windows"@
    ||| starts_with(t, "mirror windows "@)
    ||| (process_name matches Some(p) && excluded_process_names().contains(ascii_lowercase(trimmed(p))))
}

/// Whether a window is left out of the window list.
pub fn should_exclude_window(title: &str, process_name: Option<&str>) -> (b: bool)
    ensures
        b == excluded_window(title@, match process_name {
            Some(p) => Some(p@),
            None => None,
        }),
{
    let t = trim(title);
    let normalized_title = to_ascii_lowercase(t.as_str());
    if str_eq(normalized_title.as_str(), "mirror windows") || str_starts_with(normalized_title.as_str(), "mirror windows ") {
        return true;
    }
    let p = match process_name {
        Some(p) => p,
        None => return false,
    };
    let pt = trim(p);
    let name = to_ascii_lowercase(pt.as_str());
    let n = name.as_str();
    let r = str_eq(n, "windowsterminal.exe") || str_eq(n, "powershell.exe") || str_eq(n, "pwsh.exe")
        || str_eq(n, "cmd.exe") || str_eq(n, "conhost.exe") || str_eq(n, "wezterm.exe")
        || str_eq(n, "alacritty.exe") || str_eq(n, "mintty.exe");
    proof {
        let v = name@;
        let names = excluded_process_names();
        if names.contains(v) {
            let k = choose|k: int| 0 <= k < names.len() && names[k] == v;
            assert(r);
        }
        if r {
            if v == "windowsterminal.exe"@ { assert(names[0] == v); }
            if v == "powershell.exe"@ { assert(names[1] == v); }
            if v == "pwsh.exe"@ { assert(names[2] == v); }
            if v == "cmd.exe"@ { assert(names[3] == v); }
            if v == "conhost.exe"@ { assert(names[4] == v); }
            if v == "wezterm.exe"@ { assert(names[5] == v); }
            if v == "alacritty.exe"@ { assert(names[6] == v); }
            if v == "mintty.exe"@ { assert(names[7] == v); }
        }
    }
    r
}

/// Terminal and shell windows are never offered for mirroring: a window whose process name,
/// trimmed and in lower case, is `windowsterminal.exe`, `powershell.exe`, `pwsh.exe`,
/// `cmd.exe`, `conhost.exe`, `wezterm.exe`, `alacritty.exe` or `mintty.exe` is left out,
/// whatever its title.
pub proof fn lemma_terminal_windows_excluded(title: Seq<char>, process_name: Seq<char>)
    requires
        ({
            let n = ascii_lowercase(trimmed(process_name));
            n == "windowsterminal.exe"@ || n == "powershell.exe"@ || n == "pwsh.exe"@ || n == "cmd.exe"@ || n == "conhost.exe"@ || n == "wezterm.exe"@ || n == "alacritty.exe"@ || n == "mintty.exe"@
        }),
    ensures
        excluded_window(title, Some(process_name)),
{
    let n = ascii_lowercase(trimmed(process_name));
    if n == "windowsterminal.exe"@ { assert(excluded_process_names()[0] == n); }
    if n == "powershell.exe"@ { assert(excluded_process_names()[1] == n); }
    if n == "pwsh.exe"@ { assert(excluded_process_names()[2] == n); }
    if n == "cmd.exe"@ { assert(excluded_process_names()[3] == n); }
    if n == "conhost.exe"@ { assert(excluded_process_names()[4] == n); }
    if n == "wezterm.exe"@ { assert(excluded_process_names()[5] == n); }
    if n == "alacritty.exe"@ { assert(excluded_process_names()[6] == n); }
    if n == "mintty.exe"@ { assert(excluded_process_names()[7] == n); }
}

/// The control panel's own window is left out: a title that is `Mirror Windows` in any case,
/// trimmed, or starts with it and a space.
pub proof fn lemma_own_window_excluded(title: Seq<char>, process_name: Option<Seq<char>>)
    requires
        ascii_lowercase(trimmed(title)) == "mirror windows"@ || starts_with(ascii_lowercase(trimmed(title)),
            "mirror windows "@),
    ensures
        excluded_window(title, process_name),
{
}

/// Any other window is listed: a title that is not the control panel's, and no process name
/// or one that is not a terminal's.
pub proof fn lemma_other_windows_listed(title: Seq<char>, process_name: Option<Seq<char>>)
    requires
        ascii_lowercase(trimmed(title)) != "mirror windows"@,
        !starts_with(ascii_lowercase(trimmed(title)), "mirror windows "@),
        process_name matches Some(p) ==> ({
            let n = ascii_lowercase(trimmed(p));
            !(n == "windowsterminal.exe"@ || n == "powershell.exe"@ || n == "pwsh.exe"@ || n == "cmd.exe"@ || n == "conhost.exe"@ || n == "wezterm.exe"@ || n == "alacritty.exe"@ || n == "mintty.exe"@)
        }),
    ensures
        !excluded_window(title, process_name),
{
    if process_name is Some {
        let n = ascii_lowercase(trimmed(process_name->0));
        let names = excluded_process_names();
        if names.contains(n) {
            let k = choose|k: int| 0 <= k < names.len() && names[k] == n;
            assert(n == names[k]);
        }
    }
}

/// A rectangle by its edges, as Win32 reports window and monitor areas.
#[derive(Clone, Copy, Debug, PartialEq, Eq, Structural)]
pub struct Rect {
    pub left: i32,
    pub top: i32,
    pub right: i32,
    pub bottom: i32,
}

/// The size of a rectangle fits in an `i32`.
pub open spec fn rect_size_fits(rect: Rect) -> bool {
    i32::MIN <= rect.right - rect.left <= i32::MAX && i32::MIN <= rect.bottom - rect.top <= i32::MAX
}

/// A rectangle by its corner and size.
pub fn bounds_from_rect(rect: &Rect) -> (b: Bounds)
    requires
        rect_size_fits(*rect),
    ensures
        b == (Bounds { x: rect.left, y: rect.top, width: (rect.right - rect.left) as i32, height: (rect.bottom - rect.top) as i32 }),
{
    Bounds { x: rect.left, y: rect.top, width: rect.right - rect.left, height: rect.bottom - rect.top }
}

/// The warnings every Windows permission report carries.
pub open spec fn windows_warnings() -> Seq<Seq<char>> {
    seq![
        "Window arrangement and best-effort background input mirroring are enabled on Windows."@,
        "Mouse click, drag, wheel, and keyboard sync now use low-level hooks plus window-message dispatch; compatibility still varies across Chromium/Electron apps and custom renderers."@,
        "IME, dead keys, elevated app mismatches, and some anti-cheat or game surfaces can still reject mirrored keyboard input."@,
    ]
}

/// The warning added when the control panel runs elevated.
pub open spec fn elevated_warning() -> Seq<char> {
    "This control panel is currently elevated. Background mirroring will only reach elevated target apps unless the app is restarted without elevation."@
}

/// The Windows permission report: everything is supported; an elevated process adds a warning.
pub fn permission_status(is_elevated: bool) -> (p: PermissionStatus)
    ensures
        p@.platform == "windows"@,
        p@.window_management_supported && p@.input_capture_supported && p@.input_dispatch_supported,
        p@.is_process_elevated == is_elevated,
        p@.warnings == if is_elevated { windows_warnings().push(elevated_warning()) } else { windows_warnings() },
{
    let mut warnings: Vec<String> = Vec::new();
    warnings.push("Window arrangement and best-effort background input mirroring are enabled on Windows.".to_owned());
    warnings.push("Mouse click, drag, wheel, and keyboard sync now use low-level hooks plus window-message dispatch; compatibility still varies across Chromium/Electron apps and custom renderers.".to_owned());
    warnings.push("IME, dead keys, elevated app mismatches, and some anti-cheat or game surfaces can still reject mirrored keyboard input.".to_owned());
    if is_elevated {
        warnings.push("This control panel is currently elevated. Background mirroring will only reach elevated target apps unless the app is restarted without elevation.".to_owned());
    }
    let p = PermissionStatus {
        platform: "windows".to_owned(),
        window_management_supported: true,
        input_capture_supported: true,
        input_dispatch_supported: true,
        is_process_elevated: is_elevated,
        warnings,
    };
    assert(p@.warnings =~= if is_elevated { windows_warnings().push(elevated_warning()) } else { windows_warnings() });
    p
}

} // verus!
