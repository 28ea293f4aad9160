use std::io::Cursor;

use vstd::prelude::*;

use crate::codec::{base64_encode, base64_standard};
use crate::json::{entries_view, Json, JsonView};

verus! {

// ---------------------------------------------------------------------------
// The tray menu.
// ---------------------------------------------------------------------------

/// An entry of the tray menu.
#[derive(Debug, Clone)]
pub enum MenuEntry {
    Item { id: String, label: String, enabled: bool },
    Separator,
}

/// An entry as (id, label, enabled), or `None` for a separator.
pub open spec fn entry_view(e: MenuEntry) -> Option<(Seq<char>, Seq<char>, bool)> {
    match e {
        MenuEntry::Item { id, label, enabled } => Some((id@, label@, enabled)),
        MenuEntry::Separator => None,
    }
}

pub open spec fn menu_view(v: Seq<MenuEntry>) -> Seq<Option<(Seq<char>, Seq<char>, bool)>> {
    v.map_values(|e: MenuEntry| entry_view(e))
}

/// The tray menu: the main page; the four ways to start a conversation, disabled while a
/// conversation window is open; in developer mode, after a separator, the log commands;
/// and, after a separator, quitting.
pub open spec fn tray_menu_view(conversation_open: bool, developer_mode: bool) -> Seq<Option<(Seq<char>, Seq<char>, bool)>> {
    let start = seq![
        Some(("open_main"@, "打开主页面"@, true)),
        Some(("new_audio"@, "开启新语音聊天"@, !conversation_open)),
        Some(("new_desktop"@, "开启新桌面协作"@, !conversation_open)),
        Some(("recent_audio"@, "从最近会话开启语音聊天"@, !conversation_open)),
        Some(("recent_desktop"@, "从最近会话开启桌面协作"@, !conversation_open)),
    ];
    let logs = if developer_mode {
        seq![None, Some(("clear_logs"@, "清除日志"@, true)), Some(("export_logs"@, "导出日志"@, true))]
    } else {
        Seq::empty()
    };
    start + logs + seq![None, Some(("quit"@, "退出AIUI"@, true))]
}

fn item(id: &str, label: &str, enabled: bool) -> (r: MenuEntry)
    ensures
        entry_view(r) == Some((id@, label@, enabled)),
{
    MenuEntry::Item { id: id.to_owned(), label: label.to_owned(), enabled }
}

fn push_entry(v: &mut Vec<MenuEntry>, e: MenuEntry)
    ensures
        menu_view(final(v)@) == menu_view(old(v)@).push(entry_view(e)),
{
    let ghost before = v@;
    v.push(e);
    assert(menu_view(v@) =~= menu_view(before).push(entry_view(e)));
}

/// The entries of the tray menu.
pub fn build_tray_menu(conversation_open: bool, developer_mode: bool) -> (r: Vec<MenuEntry>)
    ensures
        menu_view(r@) == tray_menu_view(conversation_open, developer_mode),
{
    let enabled = !conversation_open;
    let mut menu: Vec<MenuEntry> = Vec::new();
    assert(menu_view(menu@) =~= Seq::<Option<(Seq<char>, Seq<char>, bool)>>::empty());
    push_entry(&mut menu, item("open_main", "打开主页面", true));
    push_entry(&mut menu, item("new_audio", "开启新语音聊天", enabled));
    push_entry(&mut menu, item("new_desktop", "开启新桌面协作", enabled));
    push_entry(&mut menu, item("recent_audio", "从最近会话开启语音聊天", enabled));
    push_entry(&mut menu, item("recent_desktop", "从最近会话开启桌面协作", enabled));
    if developer_mode {
        push_entry(&mut menu, MenuEntry::Separator);
        push_entry(&mut menu, item("clear_logs", "清除日志", true));
        push_entry(&mut menu, item("export_logs", "导出日志", true));
    }
    push_entry(&mut menu, MenuEntry::Separator);
    push_entry(&mut menu, item("quit", "退出AIUI", true));
    assert(menu_view(menu@) =~= tray_menu_view(conversation_open, developer_mode));
    menu
}

/// What a tray menu entry asks for.
#[derive(Debug, Clone, PartialEq, Eq)]
pub enum TrayCommand {
    /// Show (or recreate) the main window.
    ShowMain,
    /// Send the main window a command with this action.
    SendCommand(String),
    /// Quit the application.
    Quit,
    /// Nothing known.
    Nothing,
}

/// The command of a tray menu entry, by id.
pub open spec fn tray_command_view(id: Seq<char>) -> Option<Option<Seq<char>>> {
    if id == "open_main"@ {
        Some(None)
    } else if id == "new_audio"@ {
        Some(Some("new-audio-chat"@))
    } else if id == "new_desktop"@ {
        Some(Some("new-desktop-work"@))
    } else if id == "recent_audio"@ {
        Some(Some("recent-audio-chat"@))
    } else if id == "recent_desktop"@ {
        Some(Some("recent-desktop-work"@))
    } else if id == "clear_logs"@ {
        Some(Some("clear-logs"@))
    } else if id == "export_logs"@ {
        Some(Some("export-logs"@))
    } else {
        None
    }
}

/// What the tray entry with this id asks for: the main window, a command for it with the
/// entry's action, quitting (`quit`), or nothing for an unknown id.
pub fn tray_command(id: &str) -> (r: TrayCommand)
    ensures
        id@ == "quit"@ ==> r == TrayCommand::Quit,
        id@ != "quit"@ ==> match tray_command_view(id@) {
            Some(None) => r == TrayCommand::ShowMain,
            Some(Some(a)) => r matches TrayCommand::SendCommand(s) && s@ == a,
            None => r == TrayCommand::Nothing,
        },
{
    if crate::text::str_eq(id, "quit") {
        TrayCommand::Quit
    } else if crate::text::str_eq(id, "open_main") {
        TrayCommand::ShowMain
    } else if crate::text::str_eq(id, "new_audio") {
        TrayCommand::SendCommand("new-audio-chat".to_owned())
    } else if crate::text::str_eq(id, "new_desktop") {
        TrayCommand::SendCommand("new-desktop-work".to_owned())
    } else if crate::text::str_eq(id, "recent_audio") {
        TrayCommand::SendCommand("recent-audio-chat".to_owned())
    } else if crate::text::str_eq(id, "recent_desktop") {
        TrayCommand::SendCommand("recent-desktop-work".to_owned())
    } else if crate::text::str_eq(id, "clear_logs") {
        TrayCommand::SendCommand("clear-logs".to_owned())
    } else if crate::text::str_eq(id, "export_logs") {
        TrayCommand::SendCommand("export-logs".to_owned())
    } else {
        TrayCommand::Nothing
    }
}

// ---------------------------------------------------------------------------
// Bringing the main window back.
// ---------------------------------------------------------------------------

/// How to bring the main window to the front.
#[derive(Debug, Clone, Copy, PartialEq, Eq)]
pub enum MainWindowPlan {
    /// There is none: create it.
    Create,
    /// Show and focus it, restoring it first when it is minimized.
    Show { unminimize: bool },
}

/// How to bring the main window to the front, given whether it exists and is minimized.
pub fn main_window_plan(window_exists: bool, minimized: bool) -> (r: MainWindowPlan)
    ensures
        r == (if window_exists { MainWindowPlan::Show { unminimize: minimized } } else { MainWindowPlan::Create }),
{
    if window_exists {
        MainWindowPlan::Show { unminimize: minimized }
    } else {
        MainWindowPlan::Create
    }
}

// ---------------------------------------------------------------------------
// Screenshots.
// ---------------------------------------------------------------------------

/// The JPEG encoding of an RGBA image, or the encoder's error text.
pub uninterp spec fn jpeg_encoded(width: u32, height: u32, rgba: Seq<u8>) -> Result<Seq<u8>, Seq<char>>;

/// Calls `image::imageops::resize` with `FilterType::Lanczos3` on an RGBA image built by
/// `RgbaImage::from_raw` (which accepts a buffer of `width * height * 4` bytes). Only the
/// size of the result is stated: the filter's weights come from `f32::sin`, whose precision
/// std leaves unspecified, so the pixels may differ between machines. The resize first fills
/// a `width` by `new_height` buffer of 32-bit float RGBA pixels, then the `new_width` by
/// `new_height` result; a buffer whose size in bytes exceeds `isize::MAX` panics, so both
/// must stay below it.
#[verifier::external_body]
fn resize_rgba(width: u32, height: u32, rgba: Vec<u8>, new_width: u32, new_height: u32) -> (r: Vec<u8>)
    requires
        rgba@.len() == width * height * 4,
        width * new_height * 16 <= isize::MAX,
        new_width * new_height * 4 <= isize::MAX,
    ensures
        r@.len() == new_width * new_height * 4,
{
    match image::RgbaImage::from_raw(width, height, rgba) {
        Some(img) => image::imageops::resize(&img, new_width, new_height, image::imageops::FilterType::Lanczos3).into_raw(),
        None => Vec::new(),
    }
}

/// Calls `DynamicImage::write_to` with `ImageFormat::Jpeg` on an RGBA image built by
/// `RgbaImage::from_raw` (which accepts a buffer of `width * height * 4` bytes).
#[verifier::external_body]
fn encode_jpeg(width: u32, height: u32, rgba: Vec<u8>) -> (r: Result<Vec<u8>, String>)
    requires
        rgba@.len() == width * height * 4,
    ensures
        match r {
            Ok(b) => jpeg_encoded(width, height, rgba@) == Ok::<Seq<u8>, Seq<char>>(b@),
            Err(e) => jpeg_encoded(width, height, rgba@) == Err::<Seq<u8>, Seq<char>>(e@),
        },
{
    let img = match image::RgbaImage::from_raw(width, height, rgba) {
        Some(img) => img,
        None => return Err(String::new()),
    };
    let mut out: Vec<u8> = Vec::new();
    match image::DynamicImage::ImageRgba8(img).write_to(&mut Cursor::new(&mut out), image::ImageFormat::Jpeg) {
        Ok(()) => Ok(out),
        Err(e) => Err(e.to_string()),
    }
}

/// A data URL of JPEG bytes.
pub open spec fn jpeg_data_url_view(jpeg: Seq<u8>) -> Seq<char> {
    "data:image/jpeg;base64,"@ + base64_standard(jpeg)
}

/// The data URL of an RGBA image encoded as JPEG, or the encoder's error text.
pub open spec fn jpeg_url(width: u32, height: u32, rgba: Seq<u8>) -> Result<Seq<char>, Seq<char>> {
    match jpeg_encoded(width, height, rgba) {
        Ok(b) => Ok(jpeg_data_url_view(b)),
        Err(e) => Err(e),
    }
}

pub open spec fn url_result_view(r: Result<String, String>) -> Result<Seq<char>, Seq<char>> {
    match r {
        Ok(u) => Ok(u@),
        Err(e) => Err(e@),
    }
}

/// The data URL of an RGBA image encoded as JPEG.
pub fn jpeg_data_url(width: u32, height: u32, rgba: Vec<u8>) -> (r: Result<String, String>)
    requires
        rgba@.len() == width * height * 4,
    ensures
        url_result_view(r) == jpeg_url(width, height, rgba@),
{
    match encode_jpeg(width, height, rgba) {
        Ok(jpeg) => {
            let mut url = "data:image/jpeg;base64,".to_owned();
            let text = base64_encode(jpeg.as_slice());
            url.append(text.as_str());
            Ok(url)
        },
        Err(e) => Err(e),
    }
}

/// The data URL of a captured screen. When its longer edge is longer than `max_edge`, it is
/// first scaled to `scaled` (the buffers of the scaling must fit in memory addresses), and
/// the URL is that of the JPEG encoding of some `scaled.0` by `scaled.1` RGBA image;
/// otherwise it is that of the JPEG encoding of the screen itself.
pub fn screenshot_data_url(width: u32, height: u32, rgba: Vec<u8>, max_edge: u32, scaled: (u32, u32)) -> (r: Result<String, String>)
    requires
        rgba@.len() == width * height * 4,
        width > max_edge || height > max_edge ==> width * scaled.1 * 16 <= isize::MAX
            && scaled.0 * scaled.1 * 4 <= isize::MAX,
    ensures
        width <= max_edge && height <= max_edge ==> url_result_view(r) == jpeg_url(width, height, rgba@),
        width > max_edge || height > max_edge ==> exists|px: Seq<u8>|
            px.len() == scaled.0 * scaled.1 * 4 && url_result_view(r) == #[trigger] jpeg_url(scaled.0, scaled.1, px),
{
    let longest = if width >= height { width } else { height };
    if longest > max_edge {
        let resized = resize_rgba(width, height, rgba, scaled.0, scaled.1);
        let ghost px = resized@;
        let r = jpeg_data_url(scaled.0, scaled.1, resized);
        assert(px.len() == scaled.0 * scaled.1 * 4 && url_result_view(r) == jpeg_url(scaled.0, scaled.1, px));
        r
    } else {
        jpeg_data_url(width, height, rgba)
    }
}

/// `{"dataUrl": data_url, "displayId": "0", "quality": quality}`
pub open spec fn screenshot_event_view(data_url: Seq<char>, quality: Seq<char>) -> JsonView {
    JsonView::Object(
        seq![
            ("dataUrl"@, JsonView::Str(data_url)),
            ("displayId"@, JsonView::Str("0"@)),
            ("quality"@, JsonView::Str(quality)),
        ],
    )
}

/// The message telling the desktop window a screenshot was captured.
pub fn screenshot_event(data_url: &str, quality: &str) -> (r: Json)
    ensures
        r@ == screenshot_event_view(data_url@, quality@),
{
    let entries: Vec<(String, Json)> = vec![
        ("dataUrl".to_owned(), Json::Str(data_url.to_owned())),
        ("displayId".to_owned(), Json::Str("0".to_owned())),
        ("quality".to_owned(), Json::Str(quality.to_owned())),
    ];
    proof {
        reveal_with_fuel(entries_view, 4);
    }
    assert(entries_view(entries@) =~= screenshot_event_view(data_url@, quality@)->Object_0);
    Json::Object(entries)
}

} // verus!
