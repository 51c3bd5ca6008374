use vstd::prelude::*;
use crate::json::{as_bool, as_i64, get, json_as_bool, json_as_i64, json_get, members_or_none, set_member, JsonValue};
use crate::chars::{split, split_chars, trim, trim_chars};
use crate::json::as_str;
use crate::numbers::{i64_string, int_text};
use crate::text::{concat2, concat3, owned, str_eq};

verus! {

/// What the display bridge is asked to do, with its settings read and
/// clamped to the supported ranges.
#[derive(Debug, Clone, PartialEq, Eq)]
pub struct BridgeRequest {
    pub action: String,
    pub taskbar_auto_hide: bool,
    pub resolution_width: i32,
    pub resolution_height: i32,
    pub refresh_rate: i32,
    pub scale_percent: i32,
}

/// `config[key]` as a boolean, else `default`.
pub open spec fn bool_setting(config: JsonValue, key: Seq<char>, default: bool) -> bool {
    match as_bool(get(config, key)) {
        Some(b) => b,
        None => default,
    }
}

/// `config[key]` as an `i32` (a number out of that range counts as absent),
/// else `default`, clamped to `min..=max`.
pub open spec fn i32_setting(config: JsonValue, key: Seq<char>, default: int, min: int, max: int) -> int {
    let v = match as_i64(get(config, key)) {
        Some(x) => if i32::MIN <= x <= i32::MAX {
            x
        } else {
            default
        },
        None => default,
    };
    if v < min {
        min
    } else if v > max {
        max
    } else {
        v
    }
}

pub fn read_bool(config: &JsonValue, key: &str, default_value: bool) -> (r: bool)
    ensures
        r == bool_setting(*config, key@, default_value),
{
    match json_as_bool(json_get(config, key)) {
        Some(b) => b,
        None => default_value,
    }
}

pub fn read_i32(config: &JsonValue, key: &str, default_value: i32, min: i32, max: i32) -> (r: i32)
    requires
        min <= max,
    ensures
        r == i32_setting(*config, key@, default_value as int, min as int, max as int),
{
    let value: i32 = match json_as_i64(json_get(config, key)) {
        Some(x) => if i32::MIN as i64 <= x && x <= i32::MAX as i64 {
            x as i32
        } else {
            default_value
        },
        None => default_value,
    };
    if value < min {
        min
    } else if value > max {
        max
    } else {
        value
    }
}

/// The bridge request for `action_id` with the settings in `config`.
pub fn build_request(action_id: &str, config: &JsonValue) -> (r: BridgeRequest)
    ensures
        r.action@ == action_id@,
        r.taskbar_auto_hide == bool_setting(*config, "taskbarAutoHide"@, false),
        r.resolution_width == i32_setting(*config, "resolutionWidth"@, 1920, 640, 16384),
        r.resolution_height == i32_setting(*config, "resolutionHeight"@, 1080, 480, 16384),
        r.refresh_rate == i32_setting(*config, "refreshRate"@, 60, 1, 480),
        r.scale_percent == i32_setting(*config, "scalePercent"@, 100, 100, 350),
{
    BridgeRequest {
        action: owned(action_id),
        taskbar_auto_hide: read_bool(config, "taskbarAutoHide", false),
        resolution_width: read_i32(config, "resolutionWidth", 1920, 640, 16384),
        resolution_height: read_i32(config, "resolutionHeight", 1080, 480, 16384),
        refresh_rate: read_i32(config, "refreshRate", 60, 1, 480),
        scale_percent: read_i32(config, "scalePercent", 100, 100, 350),
    }
}

/// The actions the display bridge carries out.
pub open spec fn bridge_action(action: Seq<char>) -> bool {
    action == "status"@ || action == "toggle-taskbar-autohide"@ || action == "set-taskbar-autohide"@
        || action == "set-resolution"@ || action == "set-scale"@
}

/// The request to hand to the bridge for `action_id`, or the error for an
/// action it does not know.
pub fn bridge_request_for(action_id: &str, config: &JsonValue) -> (r: Result<BridgeRequest, String>)
    ensures
        bridge_action(action_id@) ==> (r matches Ok(req) && req.action@ == action_id@
            && req.taskbar_auto_hide == bool_setting(*config, "taskbarAutoHide"@, false)
            && req.resolution_width == i32_setting(*config, "resolutionWidth"@, 1920, 640, 16384)
            && req.resolution_height == i32_setting(*config, "resolutionHeight"@, 1080, 480, 16384)
            && req.refresh_rate == i32_setting(*config, "refreshRate"@, 60, 1, 480)
            && req.scale_percent == i32_setting(*config, "scalePercent"@, 100, 100, 350)),
        !bridge_action(action_id@) ==> (r matches Err(e) && e@
            == "unsupported windows-display-manager action '"@ + action_id@ + "'"@),
{
    let request = build_request(action_id, config);
    if str_eq(action_id, "status") || str_eq(action_id, "toggle-taskbar-autohide") || str_eq(
        action_id,
        "set-taskbar-autohide",
    ) || str_eq(action_id, "set-resolution") || str_eq(action_id, "set-scale") {
        Ok(request)
    } else {
        Err(concat3("unsupported windows-display-manager action '", action_id, "'"))
    }
}

/// Records the taskbar state in a bridge result: `ok`, `taskbarAutoHide`
/// and `taskbarPinned` (its opposite); a result that is not an object
/// becomes one.
pub fn apply_taskbar_state(result: JsonValue, auto_hide: bool) -> (r: JsonValue)
    ensures
        r is Object,
        forall|k: Seq<char>| #[trigger] get(r, k) == if k == "ok"@ {
            Some(JsonValue::Bool(true))
        } else if k == "taskbarAutoHide"@ {
            Some(JsonValue::Bool(auto_hide))
        } else if k == "taskbarPinned"@ {
            Some(JsonValue::Bool(!auto_hide))
        } else {
            members_or_none(result, k)
        },
{
    proof {
        reveal_strlit("ok");
        reveal_strlit("taskbarAutoHide");
        reveal_strlit("taskbarPinned");
        assert("ok"@.len() == 2);
        assert("taskbarAutoHide"@.len() == 15);
        assert("taskbarPinned"@.len() == 13);
    }
    let ghost g = result;
    let r1 = set_member(result, "ok", JsonValue::Bool(true));
    let r2 = set_member(r1, "taskbarAutoHide", JsonValue::Bool(auto_hide));
    let r3 = set_member(r2, "taskbarPinned", JsonValue::Bool(!auto_hide));
    assert forall|k: Seq<char>| #[trigger] get(r3, k) == if k == "ok"@ {
        Some(JsonValue::Bool(true))
    } else if k == "taskbarAutoHide"@ {
        Some(JsonValue::Bool(auto_hide))
    } else if k == "taskbarPinned"@ {
        Some(JsonValue::Bool(!auto_hide))
    } else {
        members_or_none(g, k)
    } by {
        assert(get(r2, k) == if k == "taskbarAutoHide"@ {
            Some(JsonValue::Bool(auto_hide))
        } else {
            members_or_none(r1, k)
        });
        assert(get(r1, k) == if k == "ok"@ {
            Some(JsonValue::Bool(true))
        } else {
            members_or_none(g, k)
        });
    }
    r3
}

/// Records what a taskbar action did: `action`, `applied` and, for a
/// requested state, `requested.taskbarAutoHide`.
pub fn finalize_taskbar_action(
    result: JsonValue,
    action_id: &str,
    applied: bool,
    requested_auto_hide: Option<bool>,
) -> (r: JsonValue)
    ensures
        r is Object,
        get(r, "action"@) matches Some(JsonValue::Str(s)) && s@ == action_id@,
        get(r, "applied"@) == Some(JsonValue::Bool(applied)),
        match requested_auto_hide {
            Some(b) => get(r, "requested"@) matches Some(q) && q is Object && get(q, "taskbarAutoHide"@)
                == Some(JsonValue::Bool(b)),
            None => get(r, "requested"@) == members_or_none(result, "requested"@),
        },
        forall|k: Seq<char>|
            k != "action"@ && k != "applied"@ && k != "requested"@ ==> #[trigger] get(r, k)
                == members_or_none(result, k),
{
    proof {
        reveal_strlit("action");
        reveal_strlit("applied");
        reveal_strlit("requested");
        assert("action"@.len() == 6);
        assert("applied"@.len() == 7);
        assert("requested"@.len() == 9);
    }
    let ghost g = result;
    let name = owned(action_id);
    let ghost sv = JsonValue::Str(name);
    let r1 = set_member(result, "action", JsonValue::Str(name));
    let r2 = set_member(r1, "applied", JsonValue::Bool(applied));
    assert(get(r1, "action"@) == Some(sv));
    assert(get(r2, "action"@) == Some(sv));
    assert forall|k: Seq<char>| k != "action"@ && k != "applied"@ implies #[trigger] get(r2, k)
        == members_or_none(g, k) by {
        assert(get(r1, k) == members_or_none(g, k));
    }
    match requested_auto_hide {
        Some(b) => {
            let q = set_member(JsonValue::Object(Vec::new()), "taskbarAutoHide", JsonValue::Bool(b));
            let r3 = set_member(r2, "requested", q);
            assert(get(r3, "requested"@) == Some(q));
            assert(get(r3, "action"@) == Some(sv));
            assert forall|k: Seq<char>| k != "action"@ && k != "applied"@ && k != "requested"@ implies
                #[trigger] get(r3, k) == members_or_none(g, k) by {
                assert(get(r2, k) == members_or_none(g, k));
            }
            r3
        },
        None => r2,
    }
}

/// The bridge action and settings for a `windows.display.*` API call of an
/// extension script.
pub fn display_api_request(method: &str, params: JsonValue) -> (r: Result<(String, JsonValue), String>)
    ensures
        method@ == "windows.display.status"@ ==> (r matches Ok((a, c)) && a@ == "status"@ && c
            is Object && forall|k: Seq<char>| #[trigger] get(c, k) is None),
        method@ == "windows.display.toggleTaskbarAutoHide"@ ==> (r matches Ok((a, c)) && a@
            == "toggle-taskbar-autohide"@ && c is Object && forall|k: Seq<char>| #[trigger] get(c, k) is None),
        method@ == "windows.display.setTaskbarAutoHide"@ ==> (r matches Ok((a, c)) && a@
            == "set-taskbar-autohide"@ && c is Object && forall|k: Seq<char>| #[trigger] get(c, k) == if k
            == "enabled"@ {
            Some(JsonValue::Bool(bool_setting(params, "autoHide"@, false)))
        } else {
            None
        }),
        method@ == "windows.display.setResolution"@ ==> (r matches Ok((a, c)) && a@ == "set-resolution"@
            && c is Object && get(c, "resolutionWidth"@) == Some(crate::json::or_null(get(params, "width"@)))
            && get(c, "resolutionHeight"@) == Some(crate::json::or_null(get(params, "height"@)))
            && get(c, "refreshRate"@) == Some(crate::json::or_null(get(params, "refreshRate"@)))),
        method@ == "windows.display.setScale"@ ==> (r matches Ok((a, c)) && a@ == "set-scale"@ && c
            is Object && forall|k: Seq<char>| #[trigger] get(c, k) == if k == "scalePercent"@ {
            Some(crate::json::or_null(get(params, "scalePercent"@)))
        } else {
            None
        }),
        !(method@ == "windows.display.status"@ || method@ == "windows.display.toggleTaskbarAutoHide"@
            || method@ == "windows.display.setTaskbarAutoHide"@ || method@
            == "windows.display.setResolution"@ || method@ == "windows.display.setScale"@) ==> (r matches Err(
            e,
        ) && e@ == "unknown windows.display method: "@ + method@),
{
    proof {
        reveal_strlit("resolutionWidth");
        reveal_strlit("resolutionHeight");
        reveal_strlit("refreshRate");
        reveal_strlit("width");
        reveal_strlit("height");
        assert("resolutionWidth"@.len() == 15);
        assert("resolutionHeight"@.len() == 16);
        assert("refreshRate"@.len() == 11);
        assert("width"@.len() == 5);
        assert("height"@.len() == 6);
        reveal_strlit("windows.display.status");
        assert("windows.display.status"@.len() == 22);
        reveal_strlit("windows.display.toggleTaskbarAutoHide");
        assert("windows.display.toggleTaskbarAutoHide"@.len() == 37);
        reveal_strlit("windows.display.setTaskbarAutoHide");
        assert("windows.display.setTaskbarAutoHide"@.len() == 34);
        reveal_strlit("windows.display.setResolution");
        assert("windows.display.setResolution"@.len() == 29);
        reveal_strlit("windows.display.setScale");
        assert("windows.display.setScale"@.len() == 24);
    }
    let empty = JsonValue::Object(Vec::new());
    if str_eq(method, "windows.display.status") {
        Ok((owned("status"), empty))
    } else if str_eq(method, "windows.display.toggleTaskbarAutoHide") {
        Ok((owned("toggle-taskbar-autohide"), empty))
    } else if str_eq(method, "windows.display.setTaskbarAutoHide") {
        let enabled = read_bool(&params, "autoHide", false);
        Ok((owned("set-taskbar-autohide"), set_member(empty, "enabled", JsonValue::Bool(enabled))))
    } else if str_eq(method, "windows.display.setResolution") {
        let (width, rest) = crate::json::take_member(params, "width");
        let (height, rest) = crate::json::take_member(rest, "height");
        let (rate, _) = crate::json::take_member(rest, "refreshRate");
        let c1 = set_member(empty, "resolutionWidth", width);
        let c2 = set_member(c1, "resolutionHeight", height);
        let c3 = set_member(c2, "refreshRate", rate);
        assert(get(c2, "resolutionWidth"@) == get(c1, "resolutionWidth"@));
        Ok((owned("set-resolution"), c3))
    } else if str_eq(method, "windows.display.setScale") {
        let (scale, _) = crate::json::take_member(params, "scalePercent");
        Ok((owned("set-scale"), set_member(empty, "scalePercent", scale)))
    } else {
        Err(crate::text::concat2("unknown windows.display method: ", method))
    }
}

/// The PowerShell program that reads and changes the display settings; it
/// takes its request from `COPPER_*` environment variables and prints one
/// JSON line.
pub const WINDOWS_BRIDGE_SCRIPT: &'static str = r#"
$ErrorActionPreference = 'Stop'
$action = $env:COPPER_ACTION
$taskbarAutoHide = ($env:COPPER_TASKBAR_AUTOHIDE -eq 'true')
$resolutionWidth = [int]$env:COPPER_RESOLUTION_WIDTH
$resolutionHeight = [int]$env:COPPER_RESOLUTION_HEIGHT
$refreshRate = [int]$env:COPPER_REFRESH_RATE
$scalePercent = [int]$env:COPPER_SCALE_PERCENT

Add-Type -TypeDefinition @"
using System;
using System.Collections.Generic;
using System.Runtime.InteropServices;
using Microsoft.Win32;
public static class CopperWinDisplay {
  [StructLayout(LayoutKind.Sequential)]
  struct APPBARDATA {
    public uint cbSize;
    public IntPtr hWnd;
    public uint uCallbackMessage;
    public uint uEdge;
    public int rcLeft, rcTop, rcRight, rcBottom;
    public IntPtr lParam;
  }
  [DllImport("shell32.dll")]
  static extern uint SHAppBarMessage(uint dwMessage, ref APPBARDATA pData);
  [DllImport("user32.dll", CharSet=CharSet.Unicode)]
  static extern IntPtr FindWindow(string lpClassName, string lpWindowName);
  const uint ABM_GETSTATE = 4;
  const uint ABM_SETSTATE = 10;
  const int ABS_AUTOHIDE = 1;
  const int ABS_ALWAYSONTOP = 2;
  static APPBARDATA MakeAppBarData() {
    APPBARDATA abd = new APPBARDATA();
    abd.cbSize = (uint)Marshal.SizeOf(typeof(APPBARDATA));
    abd.hWnd = FindWindow("Shell_TrayWnd", null);
    return abd;
  }
  public static bool IsTaskbarAutoHide() {
    APPBARDATA abd = MakeAppBarData();
    return (SHAppBarMessage(ABM_GETSTATE, ref abd) & ABS_AUTOHIDE) != 0;
  }
  public static bool SetTaskbarAutoHide(bool value) {
    APPBARDATA abd = MakeAppBarData();
    abd.lParam = (IntPtr)(value ? ABS_AUTOHIDE : ABS_ALWAYSONTOP);
    SHAppBarMessage(ABM_SETSTATE, ref abd);
    return IsTaskbarAutoHide() == value;
  }
  public static bool ToggleTaskbarAutoHide() {
    return SetTaskbarAutoHide(!IsTaskbarAutoHide());
  }

  [StructLayout(LayoutKind.Sequential, CharSet=CharSet.Ansi)]
  struct DEVMODE {
    [MarshalAs(UnmanagedType.ByValTStr, SizeConst = 32)] public string dmDeviceName;
    public short dmSpecVersion, dmDriverVersion, dmSize, dmDriverExtra;
    public int dmFields;
    public int dmPositionX, dmPositionY;
    public int dmDisplayOrientation, dmDisplayFixedOutput;
    public short dmColor, dmDuplex, dmYResolution, dmTTOption, dmCollate;
    [MarshalAs(UnmanagedType.ByValTStr, SizeConst = 32)] public string dmFormName;
    public short dmLogPixels;
    public int dmBitsPerPel, dmPelsWidth, dmPelsHeight, dmDisplayFlags, dmDisplayFrequency;
    public int dmICMMethod, dmICMIntent, dmMediaType, dmDitherType;
    public int dmReserved1, dmReserved2, dmPanningWidth, dmPanningHeight;
  }
  [DllImport("user32.dll", CharSet=CharSet.Ansi)]
  static extern bool EnumDisplaySettings(string deviceName, int modeNum, ref DEVMODE devMode);
  [DllImport("user32.dll", CharSet=CharSet.Ansi)]
  static extern int ChangeDisplaySettings(ref DEVMODE devMode, int flags);
  const int ENUM_CURRENT_SETTINGS = -1;
  const int DISP_CHANGE_SUCCESSFUL = 0;
  const int DM_PELSWIDTH = 0x80000;
  const int DM_PELSHEIGHT = 0x100000;
  const int DM_DISPLAYFREQUENCY = 0x400000;
  static DEVMODE CurrentMode() {
    DEVMODE dm = new DEVMODE();
    dm.dmSize = (short)Marshal.SizeOf(typeof(DEVMODE));
    EnumDisplaySettings(null, ENUM_CURRENT_SETTINGS, ref dm);
    return dm;
  }
  public static int[][] GetResolutionModes() {
    List<int[]> modes = new List<int[]>();
    HashSet<string> seen = new HashSet<string>(StringComparer.Ordinal);
    int modeIndex = 0;
    while (true) {
      DEVMODE dm = new DEVMODE();
      dm.dmSize = (short)Marshal.SizeOf(typeof(DEVMODE));
      if (!EnumDisplaySettings(null, modeIndex, ref dm)) {
        break;
      }
      string key = dm.dmPelsWidth + "x" + dm.dmPelsHeight + "@" + dm.dmDisplayFrequency;
      if (seen.Add(key)) {
        modes.Add(new int[] { dm.dmPelsWidth, dm.dmPelsHeight, dm.dmDisplayFrequency });
      }
      modeIndex += 1;
    }
    if (modes.Count == 0) {
      int[] current = GetResolution();
      modes.Add(new int[] { current[0], current[1], current[2] });
    }
    modes.Sort(delegate(int[] left, int[] right) {
      int width = left[0].CompareTo(right[0]);
      if (width != 0) return width;
      int height = left[1].CompareTo(right[1]);
      if (height != 0) return height;
      return left[2].CompareTo(right[2]);
    });
    return modes.ToArray();
  }
  public static int[] GetResolution() {
    DEVMODE dm = CurrentMode();
    return new int[] { dm.dmPelsWidth, dm.dmPelsHeight, dm.dmDisplayFrequency };
  }
  public static bool SetResolution(int width, int height, int refreshRate) {
    DEVMODE dm = CurrentMode();
    dm.dmPelsWidth = width;
    dm.dmPelsHeight = height;
    dm.dmDisplayFrequency = refreshRate;
    dm.dmFields = DM_PELSWIDTH | DM_PELSHEIGHT | DM_DISPLAYFREQUENCY;
    return ChangeDisplaySettings(ref dm, 0) == DISP_CHANGE_SUCCESSFUL;
  }

  [StructLayout(LayoutKind.Sequential)]
  struct LUID {
    public uint LowPart;
    public int HighPart;
  }
  [StructLayout(LayoutKind.Sequential)]
  struct DISPLAYCONFIG_RATIONAL {
    public uint Numerator;
    public uint Denominator;
  }
  [StructLayout(LayoutKind.Sequential)]
  struct DISPLAYCONFIG_DEVICE_INFO_HEADER {
    public int type;
    public int size;
    public LUID adapterId;
    public uint id;
  }
  [StructLayout(LayoutKind.Sequential)]
  struct DISPLAYCONFIG_PATH_SOURCE_INFO {
    public LUID adapterId;
    public uint id;
    public uint modeInfoIdx;
    public uint statusFlags;
  }
  [StructLayout(LayoutKind.Sequential)]
  struct DISPLAYCONFIG_PATH_TARGET_INFO {
    public LUID adapterId;
    public uint id;
    public uint modeInfoIdx;
    public uint outputTechnology;
    public uint rotation;
    public uint scaling;
    public DISPLAYCONFIG_RATIONAL refreshRate;
    public uint scanLineOrdering;
    [MarshalAs(UnmanagedType.Bool)] public bool targetAvailable;
    public uint statusFlags;
  }
  [StructLayout(LayoutKind.Sequential)]
  struct DISPLAYCONFIG_PATH_INFO {
    public DISPLAYCONFIG_PATH_SOURCE_INFO sourceInfo;
    public DISPLAYCONFIG_PATH_TARGET_INFO targetInfo;
    public uint flags;
  }
  [StructLayout(LayoutKind.Sequential)]
  struct DISPLAYCONFIG_MODE_INFO {
    public uint infoType;
    public uint id;
    public LUID adapterId;
    ulong _u0;
    ulong _u1;
    ulong _u2;
    ulong _u3;
    ulong _u4;
    ulong _u5;
  }
  [DllImport("user32.dll")]
  static extern int GetDisplayConfigBufferSizes(uint flags, out uint pathCount, out uint modeCount);
  [DllImport("user32.dll")]
  static extern int QueryDisplayConfig(
    uint flags,
    ref uint pathCount,
    [Out] DISPLAYCONFIG_PATH_INFO[] paths,
    ref uint modeCount,
    [Out] DISPLAYCONFIG_MODE_INFO[] modes,
    IntPtr currentTopologyId
  );
  [DllImport("user32.dll", EntryPoint = "DisplayConfigGetDeviceInfo")]
  static extern int DisplayConfigGetDeviceInfoRaw(IntPtr packet);
  [DllImport("user32.dll", EntryPoint = "DisplayConfigSetDeviceInfo")]
  static extern int DisplayConfigSetDeviceInfoRaw(IntPtr packet);
  [DllImport("user32.dll")]
  static extern IntPtr MonitorFromWindow(IntPtr hwnd, uint dwFlags);
  [DllImport("shcore.dll")]
  static extern int GetDpiForMonitor(IntPtr hmonitor, uint dpiType, out uint dpiX, out uint dpiY);
  const uint QDC_ONLY_ACTIVE_PATHS = 2;
  const uint MONITOR_DEFAULTTOPRIMARY = 1;
  const uint MDT_EFFECTIVE_DPI = 0;
  const int GET_SIZE = 32;
  const int SET_SIZE = 24;
  static readonly int[] ScaleLevels = new int[] { 100, 125, 150, 175, 200, 225, 250, 300, 350 };
  public static int GetScalePercent() {
    int current;
    int[] available;
    GetScaleInfo(out current, out available);
    return current;
  }
  public static int[] GetScaleLevels() {
    int current;
    int[] available;
    GetScaleInfo(out current, out available);
    return available;
  }
  public static bool SystemUsesLightTheme() {
    object value = Registry.GetValue(
      @"HKEY_CURRENT_USER\Software\Microsoft\Windows\CurrentVersion\Themes\Personalize",
      "SystemUsesLightTheme",
      1
    );
    if (value is int) {
      return ((int)value) != 0;
    }
    return true;
  }
  public static bool SetScalePercent(int percent) {
    LUID adapterId;
    uint sourceId;
    if (!GetPrimarySourceInfo(out adapterId, out sourceId)) {
      return SetScaleFallback(percent);
    }
    int getType;
    int min;
    int cur;
    int max;
    if (!RawGetDpiScale(adapterId, sourceId, out getType, out min, out cur, out max)) {
      return SetScaleFallback(percent);
    }
    int curIdx = FindClosestIndex(DpiToPercent(GetPrimaryDpi()));
    int recIdx = Clamp(curIdx - cur, 0, ScaleLevels.Length - 1);
    int scaleRel = Clamp(FindClosestIndex(percent) - recIdx, min, max);
    int setType = getType == -4 ? -3 : -4;

    IntPtr buf = Marshal.AllocHGlobal(SET_SIZE);
    try {
      for (int i = 0; i < SET_SIZE; i += 4) Marshal.WriteInt32(buf, i, 0);
      Marshal.WriteInt32(buf, 0, setType);
      Marshal.WriteInt32(buf, 4, SET_SIZE);
      Marshal.WriteInt32(buf, 8, (int)adapterId.LowPart);
      Marshal.WriteInt32(buf, 12, adapterId.HighPart);
      Marshal.WriteInt32(buf, 16, (int)sourceId);
      Marshal.WriteInt32(buf, 20, scaleRel);
      int result = DisplayConfigSetDeviceInfoRaw(buf);
      if (result == 0) {
        return true;
      }
    } finally {
      Marshal.FreeHGlobal(buf);
    }

    return SetScaleFallback(percent);
  }
  static void GetScaleInfo(out int currentPercent, out int[] availablePercentages) {
    currentPercent = GetConfiguredScalePercent();
    availablePercentages = ScaleLevels;

    LUID adapterId;
    uint sourceId;
    if (!GetPrimarySourceInfo(out adapterId, out sourceId)) {
      return;
    }
    int getType;
    int min;
    int cur;
    int max;
    if (!RawGetDpiScale(adapterId, sourceId, out getType, out min, out cur, out max)) {
      return;
    }

    int curIdx = FindClosestIndex(currentPercent);
    int recIdx = Clamp(curIdx - cur, 0, ScaleLevels.Length - 1);
    int minIdx = Math.Max(0, recIdx + min);
    int maxIdx = Math.Min(ScaleLevels.Length - 1, recIdx + max);
    int clampedIdx = Clamp(curIdx, minIdx, maxIdx);
    int length = maxIdx - minIdx + 1;
    int[] levels = new int[length];
    Array.Copy(ScaleLevels, minIdx, levels, 0, length);
    currentPercent = ScaleLevels[clampedIdx];
    availablePercentages = levels;
  }
  static int GetConfiguredScalePercent() {
    try {
      object value = Registry.GetValue(@"HKEY_CURRENT_USER\Control Panel\Desktop", "LogPixels", null);
      if (value is int) {
        return DpiToPercent((int)value);
      }
    } catch {
    }
    return DpiToPercent(GetPrimaryDpi());
  }
  static bool RawGetDpiScale(
    LUID adapterId,
    uint sourceId,
    out int workingType,
    out int min,
    out int cur,
    out int max
  ) {
    int[] types = new int[] { -4, -3 };
    for (int index = 0; index < types.Length; index++) {
      int type = types[index];
      IntPtr buf = Marshal.AllocHGlobal(GET_SIZE);
      try {
        for (int i = 0; i < GET_SIZE; i += 4) Marshal.WriteInt32(buf, i, 0);
        Marshal.WriteInt32(buf, 0, type);
        Marshal.WriteInt32(buf, 4, GET_SIZE);
        Marshal.WriteInt32(buf, 8, (int)adapterId.LowPart);
        Marshal.WriteInt32(buf, 12, adapterId.HighPart);
        Marshal.WriteInt32(buf, 16, (int)sourceId);
        int result = DisplayConfigGetDeviceInfoRaw(buf);
        min = Marshal.ReadInt32(buf, 20);
        cur = Marshal.ReadInt32(buf, 24);
        max = Marshal.ReadInt32(buf, 28);
        if (result == 0) {
          workingType = type;
          return true;
        }
      } finally {
        Marshal.FreeHGlobal(buf);
      }
    }
    workingType = 0;
    min = 0;
    cur = 0;
    max = 0;
    return false;
  }
  static bool SetScaleFallback(int percent) {
    try {
      int dpi = PercentToDpi(percent);
      RegistryKey key = Registry.CurrentUser.OpenSubKey(@"Control Panel\Desktop", true);
      if (key != null) {
        key.SetValue("LogPixels", dpi, RegistryValueKind.DWord);
        key.SetValue("Win8DpiScaling", 1, RegistryValueKind.DWord);
        key.Close();
      }
      System.Diagnostics.Process[] explorer = System.Diagnostics.Process.GetProcessesByName("explorer");
      for (int i = 0; i < explorer.Length; i++) {
        try {
          explorer[i].Kill();
        } catch {
        }
      }
      System.Threading.Thread.Sleep(500);
      System.Diagnostics.Process.Start("explorer.exe");
      return true;
    } catch {
      return false;
    }
  }
  static bool GetPrimarySourceInfo(out LUID adapterId, out uint sourceId) {
    adapterId = new LUID();
    sourceId = 0;
    uint pathCount;
    uint modeCount;
    if (GetDisplayConfigBufferSizes(QDC_ONLY_ACTIVE_PATHS, out pathCount, out modeCount) != 0) {
      return false;
    }
    DISPLAYCONFIG_PATH_INFO[] paths = new DISPLAYCONFIG_PATH_INFO[pathCount];
    DISPLAYCONFIG_MODE_INFO[] modes = new DISPLAYCONFIG_MODE_INFO[modeCount];
    if (QueryDisplayConfig(
      QDC_ONLY_ACTIVE_PATHS,
      ref pathCount,
      paths,
      ref modeCount,
      modes,
      IntPtr.Zero
    ) != 0) {
      return false;
    }
    if (paths.Length == 0) {
      return false;
    }
    adapterId = paths[0].sourceInfo.adapterId;
    sourceId = paths[0].sourceInfo.id;
    return true;
  }
  static int GetPrimaryDpi() {
    IntPtr monitor = MonitorFromWindow(IntPtr.Zero, MONITOR_DEFAULTTOPRIMARY);
    uint dpiX;
    uint dpiY;
    if (GetDpiForMonitor(monitor, MDT_EFFECTIVE_DPI, out dpiX, out dpiY) == 0) {
      return (int)dpiX;
    }
    return 96;
  }
  static int DpiToPercent(int dpi) {
    return (int)Math.Round(dpi * 100.0 / 96.0);
  }
  static int PercentToDpi(int percent) {
    return (int)Math.Round(percent * 96.0 / 100.0);
  }
  static int FindClosestIndex(int percent) {
    int best = 0;
    for (int i = 1; i < ScaleLevels.Length; i++) {
      if (Math.Abs(ScaleLevels[i] - percent) < Math.Abs(ScaleLevels[best] - percent)) {
        best = i;
      }
    }
    return best;
  }
  static int Clamp(int value, int min, int max) {
    if (value < min) return min;
    if (value > max) return max;
    return value;
  }
}
"@ -Language CSharp | Out-Null

function Get-StatusObject {
  $resolution = [CopperWinDisplay]::GetResolution()
  $resolutionModes = @([CopperWinDisplay]::GetResolutionModes() | ForEach-Object {
    [pscustomobject]@{
      width = $_[0]
      height = $_[1]
      refreshRate = $_[2]
    }
  })
  $autoHide = [CopperWinDisplay]::IsTaskbarAutoHide()
  [pscustomobject]@{
    ok = $true
    action = 'status'
    taskbarAutoHide = $autoHide
    taskbarPinned = (-not $autoHide)
    resolution = [pscustomobject]@{
      width = $resolution[0]
      height = $resolution[1]
      refreshRate = $resolution[2]
      availableModes = $resolutionModes
    }
    scale = [pscustomobject]@{
      currentPercent = [CopperWinDisplay]::GetScalePercent()
      availablePercentages = [CopperWinDisplay]::GetScaleLevels()
    }
    systemUsesLightTheme = [CopperWinDisplay]::SystemUsesLightTheme()
  }
}

$result = switch ($action) {
  'status' {
    Get-StatusObject
    break
  }
  'toggle-taskbar-autohide' {
    $ok = [CopperWinDisplay]::ToggleTaskbarAutoHide()
    $status = Get-StatusObject
    $status.action = 'toggle-taskbar-autohide'
    $status.applied = $ok
    $status
    break
  }
  'set-taskbar-autohide' {
    $ok = [CopperWinDisplay]::SetTaskbarAutoHide($taskbarAutoHide)
    $status = Get-StatusObject
    $status.action = 'set-taskbar-autohide'
    $status.requested = [pscustomobject]@{ taskbarAutoHide = $taskbarAutoHide }
    $status.applied = $ok
    $status
    break
  }
  'set-resolution' {
    $ok = [CopperWinDisplay]::SetResolution($resolutionWidth, $resolutionHeight, $refreshRate)
    $status = Get-StatusObject
    $status.action = 'set-resolution'
    $status.requested = [pscustomobject]@{
      width = $resolutionWidth
      height = $resolutionHeight
      refreshRate = $refreshRate
    }
    $status.applied = $ok
    $status
    break
  }
  'set-scale' {
    $ok = [CopperWinDisplay]::SetScalePercent($scalePercent)
    $status = Get-StatusObject
    $status.action = 'set-scale'
    $status.requested = [pscustomobject]@{ scalePercent = $scalePercent }
    $status.applied = $ok
    $status
    break
  }
  default {
    [pscustomobject]@{
      ok = $false
      error = "unsupported action '$action'"
    }
    break
  }
}

$result | ConvertTo-Json -Compress -Depth 8
"#;

/// The display bridge program, `WINDOWS_BRIDGE_SCRIPT`.
pub fn windows_bridge_script() -> (r: &'static str)
    ensures
        r@ == WINDOWS_BRIDGE_SCRIPT@,
{
    WINDOWS_BRIDGE_SCRIPT
}


/// The same request asking for the display status.
pub fn status_request(request: &BridgeRequest) -> (r: BridgeRequest)
    ensures
        r.action@ == "status"@,
        r.taskbar_auto_hide == request.taskbar_auto_hide,
        r.resolution_width == request.resolution_width,
        r.resolution_height == request.resolution_height,
        r.refresh_rate == request.refresh_rate,
        r.scale_percent == request.scale_percent,
{
    BridgeRequest {
        action: owned("status"),
        taskbar_auto_hide: request.taskbar_auto_hide,
        resolution_width: request.resolution_width,
        resolution_height: request.resolution_height,
        refresh_rate: request.refresh_rate,
        scale_percent: request.scale_percent,
    }
}

/// The display status the bridge reported, or `{ok: true, action: "status"}`
/// when it could not report one.
pub fn status_or_default(reported: Result<JsonValue, String>) -> (r: JsonValue)
    ensures
        reported matches Ok(v) ==> r == v,
        reported is Err ==> (get(r, "action"@) matches Some(JsonValue::Str(a)) && a@ == "status"@
            && r is Object && get(r, "ok"@) == Some(JsonValue::Bool(true))),
{
    match reported {
        Ok(v) => v,
        Err(_) => {
            proof {
                reveal_strlit("ok");
                reveal_strlit("action");
                assert("ok"@.len() == 2);
                assert("action"@.len() == 6);
            }
            let v0 = set_member(JsonValue::Object(Vec::new()), "ok", JsonValue::Bool(true));
            let v1 = set_member(v0, "action", JsonValue::Str(owned("status")));
            assert(get(v1, "ok"@) == get(v0, "ok"@));
            v1
        },
    }
}

/// The environment the bridge script reads its request from.
pub open spec fn bridge_env_spec(r: BridgeRequest) -> Seq<(Seq<char>, Seq<char>)> {
    seq![
        ("COPPER_ACTION"@, r.action@),
        ("COPPER_TASKBAR_AUTOHIDE"@, if r.taskbar_auto_hide { "true"@ } else { "false"@ }),
        ("COPPER_RESOLUTION_WIDTH"@, int_text(r.resolution_width as int)),
        ("COPPER_RESOLUTION_HEIGHT"@, int_text(r.resolution_height as int)),
        ("COPPER_REFRESH_RATE"@, int_text(r.refresh_rate as int)),
        ("COPPER_SCALE_PERCENT"@, int_text(r.scale_percent as int)),
    ]
}

/// The environment variables that hand a request to the bridge script.
pub fn bridge_env(request: &BridgeRequest) -> (r: Vec<(String, String)>)
    ensures
        r@.map_values(|p: (String, String)| (p.0@, p.1@)) == bridge_env_spec(*request),
{
    let mut out: Vec<(String, String)> = Vec::new();
    out.push((owned("COPPER_ACTION"), owned(request.action.as_str())));
    out.push(
        (
            owned("COPPER_TASKBAR_AUTOHIDE"),
            owned(
                if request.taskbar_auto_hide {
                    "true"
                } else {
                    "false"
                },
            ),
        ),
    );
    out.push((owned("COPPER_RESOLUTION_WIDTH"), i64_string(request.resolution_width as i64)));
    out.push((owned("COPPER_RESOLUTION_HEIGHT"), i64_string(request.resolution_height as i64)));
    out.push((owned("COPPER_REFRESH_RATE"), i64_string(request.refresh_rate as i64)));
    out.push((owned("COPPER_SCALE_PERCENT"), i64_string(request.scale_percent as i64)));
    assert(out@.map_values(|p: (String, String)| (p.0@, p.1@)) =~= bridge_env_spec(*request));
    out
}

/// Why a bridge run failed: what it wrote to stderr, else to stdout
/// (each trimmed), else its exit status.
pub open spec fn bridge_failure_spec(stderr: Seq<char>, stdout: Seq<char>, status: Seq<char>) -> Seq<char> {
    let details = if trim(stderr).len() > 0 { trim(stderr) } else { trim(stdout) };
    if details.len() == 0 {
        "windows display bridge exited with status "@ + status
    } else {
        "windows display bridge failed: "@ + details
    }
}

/// The message for a bridge run that ended unsuccessfully.
pub fn bridge_failure(stderr: &str, stdout: &str, status: &str) -> (r: String)
    ensures
        r@ == bridge_failure_spec(stderr@, stdout@, status@),
{
    let e = crate::text::chars_of(stderr);
    let te = trim_chars(e.as_slice());
    let o = crate::text::chars_of(stdout);
    let to = trim_chars(o.as_slice());
    let details = if te.len() > 0 { te } else { to };
    if details.len() == 0 {
        concat2("windows display bridge exited with status ", status)
    } else {
        let d = crate::text::string_from_chars(details.as_slice());
        concat2("windows display bridge failed: ", d.as_str())
    }
}

/// The last line of the bridge's output that is not blank, trimmed.
pub open spec fn last_line_spec(lines: Seq<Seq<char>>) -> Option<Seq<char>>
    decreases lines.len(),
{
    if lines.len() == 0 {
        None
    } else if trim(lines.last()).len() > 0 {
        Some(trim(lines.last()))
    } else {
        last_line_spec(lines.drop_last())
    }
}

/// The last non-blank line of the bridge's output, where its JSON answer
/// stands.
pub fn last_output_line(stdout: &str) -> (r: Option<String>)
    ensures
        match last_line_spec(split(stdout@, '\n')) {
            Some(l) => r matches Some(t) && t@ == l,
            None => r is None,
        },
{
    let cs = crate::text::chars_of(stdout);
    let lines = split_chars(cs.as_slice(), '\n');
    let ghost ls = split(stdout@, '\n');
    let mut i: usize = lines.len();
    assert(ls.take(lines@.len() as int) =~= ls);
    while i > 0
        invariant
            i <= lines@.len(),
            ls == split(stdout@, '\n'),
            lines@.len() == ls.len(),
            forall|j: int| 0 <= j < lines@.len() ==> #[trigger] lines@[j]@ == ls[j],
            last_line_spec(ls) == last_line_spec(ls.take(i as int)),
        decreases i,
    {
        let t = trim_chars(lines[i - 1].as_slice());
        assert(ls.take(i as int).last() == ls[i - 1]);
        assert(ls.take(i as int).drop_last() =~= ls.take(i - 1));
        assert(t@ == trim(ls.take(i as int).last()));
        if t.len() > 0 {
            assert(ls.take(i as int).len() > 0);
            assert(last_line_spec(ls.take(i as int)) == Some(t@));
            let line = crate::text::string_from_chars(t.as_slice());
            assert(line@ == t@);
            return Some(line);
        }
        i = i - 1;
    }
    None
}

/// The bridge's answer, unless it reports `ok: false`: then its `error`
/// text, or a generic one.
pub fn check_bridge_value(value: JsonValue) -> (r: Result<JsonValue, String>)
    ensures
        get(value, "ok"@) == Some(JsonValue::Bool(false)) ==> (r matches Err(e) && e@ == match as_str(
            get(value, "error"@),
        ) {
            Some(t) => t,
            None => "windows display bridge reported failure"@,
        }),
        get(value, "ok"@) != Some(JsonValue::Bool(false)) ==> r == Ok::<JsonValue, String>(value),
{
    let failed = match json_as_bool(json_get(&value, "ok")) {
        Some(b) => !b,
        None => false,
    };
    if failed {
        let e = match crate::json::json_as_str(json_get(&value, "error")) {
            Some(t) => owned(t.as_str()),
            None => owned("windows display bridge reported failure"),
        };
        Err(e)
    } else {
        Ok(value)
    }
}

} // verus!
