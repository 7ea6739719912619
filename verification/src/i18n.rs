//! The languages of the user interface.

use crate::text;
use vstd::prelude::*;

verus! {

/// A language of the user interface.
#[derive(Debug, Clone, Copy, PartialEq, Eq, Structural)]
pub enum Language {
    SimplifiedChinese,
    English,
}

/// The language that a code stands for.
pub open spec fn language_of(code: Seq<char>) -> Language {
    if code == "en"@ || code == "en-US"@ || code == "en-GB"@ {
        Language::English
    } else {
        Language::SimplifiedChinese
    }
}

/// The code of a language.
pub open spec fn code_of(language: Language) -> Seq<char> {
    match language {
        Language::SimplifiedChinese => "zh-CN"@,
        Language::English => "en"@,
    }
}

/// The English for a text of the connection window.
pub open spec fn spec_connection_text(value: Seq<char>) -> Option<Seq<char>> {
    if value == "可连接"@ {
        Some(
            "Available"@,
        )
    } else if value == "历史记录"@ {
        Some(
            "History"@,
        )
    } else if value == "最近连接"@ {
        Some(
            "Recently connected"@,
        )
    } else if value == "历史连接"@ {
        Some(
            "Connection history"@,
        )
    } else if value == "选择记录可快速填写"@ {
        Some(
            "Select an entry to fill the form"@,
        )
    } else if value == "搜索历史连接"@ {
        Some(
            "Search connection history"@,
        )
    } else if value == "暂无历史连接"@ {
        Some(
            "No connection history"@,
        )
    } else if value == "未找到匹配记录"@ {
        Some(
            "No matching entries"@,
        )
    } else if value == "连接成功后会显示在这里"@ {
        Some(
            "Successful connections appear here"@,
        )
    } else if value == "请尝试其他关键词"@ {
        Some(
            "Try a different search"@,
        )
    } else if value == "连接"@ {
        Some(
            "Connect"@,
        )
    } else if value == "复制地址"@ {
        Some(
            "Copy address"@,
        )
    } else if value == "复制用户名"@ {
        Some(
            "Copy username"@,
        )
    } else if value == "删除记录"@ {
        Some(
            "Delete entry"@,
        )
    } else if value == "连接到远程设备"@ {
        Some(
            "Connect to a remote device"@,
        )
    } else if value == "输入远程地址和凭据，密码由系统安全存储。"@ {
        Some(
            "Enter the remote address and credentials. Passwords are stored securely."@,
        )
    } else if value == "远程地址"@ {
        Some(
            "Remote address"@,
        )
    } else if value == "端口"@ {
        Some(
            "Port"@,
        )
    } else if value == "默认 5900"@ {
        Some(
            "Default 5900"@,
        )
    } else if value == "用户名"@ {
        Some(
            "Username"@,
        )
    } else if value == "远程账户名"@ {
        Some(
            "Remote account name"@,
        )
    } else if value == "已安全保存"@ {
        Some(
            "Saved securely"@,
        )
    } else if value == "输入远程密码"@ {
        Some(
            "Enter remote password"@,
        )
    } else if value == "密码"@ {
        Some(
            "Password"@,
        )
    } else if value == "记住密码"@ {
        Some(
            "Remember password"@,
        )
    } else if value == "添加到历史连接"@ {
        Some(
            "Add to connection history"@,
        )
    } else if value == "连接参数"@ {
        Some(
            "Connection options"@,
        )
    } else if value == "视频质量"@ {
        Some(
            "Video quality"@,
        )
    } else if value == "帧率 (FPS)"@ {
        Some(
            "Frame rate (FPS)"@,
        )
    } else if value == "自动"@ {
        Some(
            "Auto"@,
        )
    } else if value == "像素格式：服务器原生  ·  缩放：适应窗口  ·  自动重连：已启用"@ {
        Some(
            "Pixel format: Server native  ·  Scaling: Fit window  ·  Auto reconnect: On"@,
        )
    } else if value == "密码使用应用本地加密凭据库保存，不写入明文配置文件。"@ {
        Some(
            "Passwords are stored in the app's encrypted credential vault, not in plain-text configuration."@,
        )
    } else if value == "导出快捷方式"@ {
        Some(
            "Export shortcuts"@,
        )
    } else if value == "加入历史"@ {
        Some(
            "Add to history"@,
        )
    } else {
        None
    }
}

/// The English for a text of the connection window.
fn connection_text(value: &Vec<char>) -> (english: Option<&'static str>)
    ensures
        text_view(english) == spec_connection_text(value@),
{
    if text::chars_match(value, "可连接") {
        Some(
            "Available",
        )
    } else if text::chars_match(value, "历史记录") {
        Some(
            "History",
        )
    } else if text::chars_match(value, "最近连接") {
        Some(
            "Recently connected",
        )
    } else if text::chars_match(value, "历史连接") {
        Some(
            "Connection history",
        )
    } else if text::chars_match(value, "选择记录可快速填写") {
        Some(
            "Select an entry to fill the form",
        )
    } else if text::chars_match(value, "搜索历史连接") {
        Some(
            "Search connection history",
        )
    } else if text::chars_match(value, "暂无历史连接") {
        Some(
            "No connection history",
        )
    } else if text::chars_match(value, "未找到匹配记录") {
        Some(
            "No matching entries",
        )
    } else if text::chars_match(value, "连接成功后会显示在这里") {
        Some(
            "Successful connections appear here",
        )
    } else if text::chars_match(value, "请尝试其他关键词") {
        Some(
            "Try a different search",
        )
    } else if text::chars_match(value, "连接") {
        Some(
            "Connect",
        )
    } else if text::chars_match(value, "复制地址") {
        Some(
            "Copy address",
        )
    } else if text::chars_match(value, "复制用户名") {
        Some(
            "Copy username",
        )
    } else if text::chars_match(value, "删除记录") {
        Some(
            "Delete entry",
        )
    } else if text::chars_match(value, "连接到远程设备") {
        Some(
            "Connect to a remote device",
        )
    } else if text::chars_match(value, "输入远程地址和凭据，密码由系统安全存储。") {
        Some(
            "Enter the remote address and credentials. Passwords are stored securely.",
        )
    } else if text::chars_match(value, "远程地址") {
        Some(
            "Remote address",
        )
    } else if text::chars_match(value, "端口") {
        Some(
            "Port",
        )
    } else if text::chars_match(value, "默认 5900") {
        Some(
            "Default 5900",
        )
    } else if text::chars_match(value, "用户名") {
        Some(
            "Username",
        )
    } else if text::chars_match(value, "远程账户名") {
        Some(
            "Remote account name",
        )
    } else if text::chars_match(value, "已安全保存") {
        Some(
            "Saved securely",
        )
    } else if text::chars_match(value, "输入远程密码") {
        Some(
            "Enter remote password",
        )
    } else if text::chars_match(value, "密码") {
        Some(
            "Password",
        )
    } else if text::chars_match(value, "记住密码") {
        Some(
            "Remember password",
        )
    } else if text::chars_match(value, "添加到历史连接") {
        Some(
            "Add to connection history",
        )
    } else if text::chars_match(value, "连接参数") {
        Some(
            "Connection options",
        )
    } else if text::chars_match(value, "视频质量") {
        Some(
            "Video quality",
        )
    } else if text::chars_match(value, "帧率 (FPS)") {
        Some(
            "Frame rate (FPS)",
        )
    } else if text::chars_match(value, "自动") {
        Some(
            "Auto",
        )
    } else if text::chars_match(value, "像素格式：服务器原生  ·  缩放：适应窗口  ·  自动重连：已启用") {
        Some(
            "Pixel format: Server native  ·  Scaling: Fit window  ·  Auto reconnect: On",
        )
    } else if text::chars_match(value, "密码使用应用本地加密凭据库保存，不写入明文配置文件。") {
        Some(
            "Passwords are stored in the app's encrypted credential vault, not in plain-text configuration.",
        )
    } else if text::chars_match(value, "导出快捷方式") {
        Some(
            "Export shortcuts",
        )
    } else if text::chars_match(value, "加入历史") {
        Some(
            "Add to history",
        )
    } else {
        None
    }
}

/// The English for a text of the settings window.
pub open spec fn spec_settings_text(value: Seq<char>) -> Option<Seq<char>> {
    if value == "设置"@ {
        Some(
            "Settings"@,
        )
    } else if value == "偏好设置"@ {
        Some(
            "Preferences"@,
        )
    } else if value == "常规"@ {
        Some(
            "General"@,
        )
    } else if value == "显示与性能"@ {
        Some(
            "Display & performance"@,
        )
    } else if value == "按键映射"@ {
        Some(
            "Key mapping"@,
        )
    } else if value == "安全"@ {
        Some(
            "Security"@,
        )
    } else if value == "关于"@ {
        Some(
            "About"@,
        )
    } else if value == "当前使用深色外观"@ {
        Some(
            "Dark appearance is currently active"@,
        )
    } else if value == "当前使用浅色外观"@ {
        Some(
            "Light appearance is currently active"@,
        )
    } else if value == "配置应用的通用行为。"@ {
        Some(
            "Configure general application behavior."@,
        )
    } else if value == "外观"@ {
        Some(
            "Appearance"@,
        )
    } else if value == "主题模式"@ {
        Some(
            "Theme"@,
        )
    } else if value == "语言"@ {
        Some(
            "Language"@,
        )
    } else if value == "显示会话性能信息"@ {
        Some(
            "Show session performance information"@,
        )
    } else if value == "输入控制"@ {
        Some(
            "Input controls"@,
        )
    } else if value == "反转滚轮方向"@ {
        Some(
            "Reverse scroll direction"@,
        )
    } else if value == "滚动倍数"@ {
        Some(
            "Scroll multiplier"@,
        )
    } else if value == "同时反转垂直和水平滚动方向。"@ {
        Some(
            "Reverse both vertical and horizontal scrolling."@,
        )
    } else if value == "提高远程界面的滚轮滚动速度。"@ {
        Some(
            "Increase the wheel scrolling speed in the remote view."@,
        )
    } else {
        None
    }
}

/// The English for a text of the settings window.
fn settings_text(value: &Vec<char>) -> (english: Option<&'static str>)
    ensures
        text_view(english) == spec_settings_text(value@),
{
    if text::chars_match(value, "设置") {
        Some(
            "Settings",
        )
    } else if text::chars_match(value, "偏好设置") {
        Some(
            "Preferences",
        )
    } else if text::chars_match(value, "常规") {
        Some(
            "General",
        )
    } else if text::chars_match(value, "显示与性能") {
        Some(
            "Display & performance",
        )
    } else if text::chars_match(value, "按键映射") {
        Some(
            "Key mapping",
        )
    } else if text::chars_match(value, "安全") {
        Some(
            "Security",
        )
    } else if text::chars_match(value, "关于") {
        Some(
            "About",
        )
    } else if text::chars_match(value, "当前使用深色外观") {
        Some(
            "Dark appearance is currently active",
        )
    } else if text::chars_match(value, "当前使用浅色外观") {
        Some(
            "Light appearance is currently active",
        )
    } else if text::chars_match(value, "配置应用的通用行为。") {
        Some(
            "Configure general application behavior.",
        )
    } else if text::chars_match(value, "外观") {
        Some(
            "Appearance",
        )
    } else if text::chars_match(value, "主题模式") {
        Some(
            "Theme",
        )
    } else if text::chars_match(value, "语言") {
        Some(
            "Language",
        )
    } else if text::chars_match(value, "显示会话性能信息") {
        Some(
            "Show session performance information",
        )
    } else if text::chars_match(value, "输入控制") {
        Some(
            "Input controls",
        )
    } else if text::chars_match(value, "反转滚轮方向") {
        Some(
            "Reverse scroll direction",
        )
    } else if text::chars_match(value, "滚动倍数") {
        Some(
            "Scroll multiplier",
        )
    } else if text::chars_match(value, "同时反转垂直和水平滚动方向。") {
        Some(
            "Reverse both vertical and horizontal scrolling.",
        )
    } else if text::chars_match(value, "提高远程界面的滚轮滚动速度。") {
        Some(
            "Increase the wheel scrolling speed in the remote view.",
        )
    } else {
        None
    }
}

/// The English for a text of the key mapping.
pub open spec fn spec_keys_text(value: Seq<char>) -> Option<Seq<char>> {
    if value == "配置本地按键如何发送到远程设备。"@ {
        Some(
            "Configure how local keys are sent to the remote device."@,
        )
    } else if value == "预设"@ {
        Some(
            "Preset"@,
        )
    } else if value == "macOS 默认"@ {
        Some(
            "macOS Default"@,
        )
    } else if value == "Windows 默认"@ {
        Some(
            "Windows Default"@,
        )
    } else if value == "Linux 默认"@ {
        Some(
            "Linux Default"@,
        )
    } else if value == "复制预设"@ {
        Some(
            "Duplicate preset"@,
        )
    } else if value == "重置"@ {
        Some(
            "Reset"@,
        )
    } else if value == "本地按键"@ {
        Some(
            "Local key"@,
        )
    } else if value == "远程动作"@ {
        Some(
            "Remote action"@,
        )
    } else if value == "作用域"@ {
        Some(
            "Scope"@,
        )
    } else if value == "添加常用映射"@ {
        Some(
            "Add mapping"@,
        )
    } else if value == "拖动可调整优先级"@ {
        Some(
            "Drag to change priority"@,
        )
    } else if value == "常用选项"@ {
        Some(
            "Common options"@,
        )
    } else if value == "自动适配远程键盘布局"@ {
        Some(
            "Adapt to remote keyboard layout"@,
        )
    } else if value == "在全屏模式中捕获系统快捷键"@ {
        Some(
            "Capture system shortcuts in fullscreen"@,
        )
    } else {
        None
    }
}

/// The English for a text of the key mapping.
fn keys_text(value: &Vec<char>) -> (english: Option<&'static str>)
    ensures
        text_view(english) == spec_keys_text(value@),
{
    if text::chars_match(value, "配置本地按键如何发送到远程设备。") {
        Some(
            "Configure how local keys are sent to the remote device.",
        )
    } else if text::chars_match(value, "预设") {
        Some(
            "Preset",
        )
    } else if text::chars_match(value, "macOS 默认") {
        Some(
            "macOS Default",
        )
    } else if text::chars_match(value, "Windows 默认") {
        Some(
            "Windows Default",
        )
    } else if text::chars_match(value, "Linux 默认") {
        Some(
            "Linux Default",
        )
    } else if text::chars_match(value, "复制预设") {
        Some(
            "Duplicate preset",
        )
    } else if text::chars_match(value, "重置") {
        Some(
            "Reset",
        )
    } else if text::chars_match(value, "本地按键") {
        Some(
            "Local key",
        )
    } else if text::chars_match(value, "远程动作") {
        Some(
            "Remote action",
        )
    } else if text::chars_match(value, "作用域") {
        Some(
            "Scope",
        )
    } else if text::chars_match(value, "添加常用映射") {
        Some(
            "Add mapping",
        )
    } else if text::chars_match(value, "拖动可调整优先级") {
        Some(
            "Drag to change priority",
        )
    } else if text::chars_match(value, "常用选项") {
        Some(
            "Common options",
        )
    } else if text::chars_match(value, "自动适配远程键盘布局") {
        Some(
            "Adapt to remote keyboard layout",
        )
    } else if text::chars_match(value, "在全屏模式中捕获系统快捷键") {
        Some(
            "Capture system shortcuts in fullscreen",
        )
    } else {
        None
    }
}

/// The English for a text of credentials and the program itself.
pub open spec fn spec_about_text(value: Seq<char>) -> Option<Seq<char>> {
    if value == "设置远程画面的质量和性能。"@ {
        Some(
            "Configure remote display quality and performance."@,
        )
    } else if value == "远程画面"@ {
        Some(
            "Remote display"@,
        )
    } else if value == "管理本地凭据与连接数据。"@ {
        Some(
            "Manage local credentials and connection data."@,
        )
    } else if value == "凭据存储"@ {
        Some(
            "Credential storage"@,
        )
    } else if value == "在应用本地加密凭据库中保存当前设备密码"@ {
        Some(
            "Save the current device password in the app's encrypted vault"@,
        )
    } else if value == "密码保存在独立的 AES-256-GCM 加密文件中，不会写入明文配置。"@ {
        Some(
            "Passwords are stored in a separate AES-256-GCM encrypted file and never written to plain-text configuration."@,
        )
    } else if value == "Apple Remote Desktop 原生 Rust 客户端。"@ {
        Some(
            "A native Rust client for Apple Remote Desktop."@,
        )
    } else if value == "支持 ARD 认证、加密传输、MVS GPU 解码、键鼠输入、剪贴板与自动重连。"@ {
        Some(
            "Supports ARD authentication, encrypted transport, MVS GPU decoding, keyboard and mouse input, clipboard sync, and automatic reconnection."@,
        )
    } else if value == "许可证：MIT OR Apache-2.0"@ {
        Some(
            "License: MIT OR Apache-2.0"@,
        )
    } else {
        None
    }
}

/// The English for a text of credentials and the program itself.
fn about_text(value: &Vec<char>) -> (english: Option<&'static str>)
    ensures
        text_view(english) == spec_about_text(value@),
{
    if text::chars_match(value, "设置远程画面的质量和性能。") {
        Some(
            "Configure remote display quality and performance.",
        )
    } else if text::chars_match(value, "远程画面") {
        Some(
            "Remote display",
        )
    } else if text::chars_match(value, "管理本地凭据与连接数据。") {
        Some(
            "Manage local credentials and connection data.",
        )
    } else if text::chars_match(value, "凭据存储") {
        Some(
            "Credential storage",
        )
    } else if text::chars_match(value, "在应用本地加密凭据库中保存当前设备密码") {
        Some(
            "Save the current device password in the app's encrypted vault",
        )
    } else if text::chars_match(value, "密码保存在独立的 AES-256-GCM 加密文件中，不会写入明文配置。") {
        Some(
            "Passwords are stored in a separate AES-256-GCM encrypted file and never written to plain-text configuration.",
        )
    } else if text::chars_match(value, "Apple Remote Desktop 原生 Rust 客户端。") {
        Some(
            "A native Rust client for Apple Remote Desktop.",
        )
    } else if text::chars_match(value, "支持 ARD 认证、加密传输、MVS GPU 解码、键鼠输入、剪贴板与自动重连。") {
        Some(
            "Supports ARD authentication, encrypted transport, MVS GPU decoding, keyboard and mouse input, clipboard sync, and automatic reconnection.",
        )
    } else if text::chars_match(value, "许可证：MIT OR Apache-2.0") {
        Some(
            "License: MIT OR Apache-2.0",
        )
    } else {
        None
    }
}

/// The English for a text of choices and actions.
pub open spec fn spec_choice_text(value: Seq<char>) -> Option<Seq<char>> {
    if value == "低画质"@ || value == "低"@ {
        Some(
            "Low"@,
        )
    } else if value == "中画质"@ || value == "中"@ {
        Some(
            "Medium"@,
        )
    } else if value == "高画质"@ || value == "高"@ {
        Some(
            "High"@,
        )
    } else if value == "自适应 MVS"@ || value == "自适应"@ {
        Some(
            "Adaptive"@,
        )
    } else if value == "全画质"@ || value == "完整"@ {
        Some(
            "Full"@,
        )
    } else if value == "跟随系统"@ {
        Some(
            "System"@,
        )
    } else if value == "浅色"@ {
        Some(
            "Light"@,
        )
    } else if value == "深色"@ {
        Some(
            "Dark"@,
        )
    } else if value == "复制"@ {
        Some(
            "Copy"@,
        )
    } else if value == "粘贴"@ {
        Some(
            "Paste"@,
        )
    } else if value == "强制退出"@ {
        Some(
            "Force Quit"@,
        )
    } else if value == "安全选项"@ {
        Some(
            "Security options"@,
        )
    } else if value == "切换远程窗口"@ {
        Some(
            "Switch remote window"@,
        )
    } else if value == "显示桌面"@ {
        Some(
            "Show desktop"@,
        )
    } else if value == "全局"@ {
        Some(
            "Global"@,
        )
    } else if value == "会话"@ {
        Some(
            "Session"@,
        )
    } else if value == "取消"@ {
        Some(
            "Cancel"@,
        )
    } else if value == "关闭"@ {
        Some(
            "Close"@,
        )
    } else {
        None
    }
}

/// The English for a text of choices and actions.
fn choice_text(value: &Vec<char>) -> (english: Option<&'static str>)
    ensures
        text_view(english) == spec_choice_text(value@),
{
    if text::chars_match(value, "低画质") || text::chars_match(value, "低") {
        Some(
            "Low",
        )
    } else if text::chars_match(value, "中画质") || text::chars_match(value, "中") {
        Some(
            "Medium",
        )
    } else if text::chars_match(value, "高画质") || text::chars_match(value, "高") {
        Some(
            "High",
        )
    } else if text::chars_match(value, "自适应 MVS") || text::chars_match(value, "自适应") {
        Some(
            "Adaptive",
        )
    } else if text::chars_match(value, "全画质") || text::chars_match(value, "完整") {
        Some(
            "Full",
        )
    } else if text::chars_match(value, "跟随系统") {
        Some(
            "System",
        )
    } else if text::chars_match(value, "浅色") {
        Some(
            "Light",
        )
    } else if text::chars_match(value, "深色") {
        Some(
            "Dark",
        )
    } else if text::chars_match(value, "复制") {
        Some(
            "Copy",
        )
    } else if text::chars_match(value, "粘贴") {
        Some(
            "Paste",
        )
    } else if text::chars_match(value, "强制退出") {
        Some(
            "Force Quit",
        )
    } else if text::chars_match(value, "安全选项") {
        Some(
            "Security options",
        )
    } else if text::chars_match(value, "切换远程窗口") {
        Some(
            "Switch remote window",
        )
    } else if text::chars_match(value, "显示桌面") {
        Some(
            "Show desktop",
        )
    } else if text::chars_match(value, "全局") {
        Some(
            "Global",
        )
    } else if text::chars_match(value, "会话") {
        Some(
            "Session",
        )
    } else if text::chars_match(value, "取消") {
        Some(
            "Cancel",
        )
    } else if text::chars_match(value, "关闭") {
        Some(
            "Close",
        )
    } else {
        None
    }
}

/// The English for a text of the outcome of an action.
pub open spec fn spec_status_text(value: Seq<char>) -> Option<Seq<char>> {
    if value == "已复制设备地址"@ {
        Some(
            "Device address copied"@,
        )
    } else if value == "已复制用户名"@ {
        Some(
            "Username copied"@,
        )
    } else if value == "请输入有效的设备地址和端口"@ {
        Some(
            "Enter a valid device address and port"@,
        )
    } else if value == "历史连接已更新"@ {
        Some(
            "Connection history updated"@,
        )
    } else if value == "已加入历史连接"@ {
        Some(
            "Added to connection history"@,
        )
    } else if value == "按键映射已恢复默认"@ {
        Some(
            "Key mappings restored to defaults"@,
        )
    } else if value == "请输入设备地址和用户名"@ {
        Some(
            "Enter a device address and username"@,
        )
    } else if value == "请输入有效端口（1–65535）"@ {
        Some(
            "Enter a valid port (1-65535)"@,
        )
    } else if value == "请输入密码"@ {
        Some(
            "Enter a password"@,
        )
    } else if value == "保存的密码不可用，请重新输入"@ {
        Some(
            "The saved password is unavailable. Enter it again."@,
        )
    } else if value == "已复制按键预设"@ {
        Some(
            "Key preset duplicated"@,
        )
    } else if value == "已添加常用映射"@ {
        Some(
            "Mapping added"@,
        )
    } else if value == "已移除按键映射"@ {
        Some(
            "Key mapping removed"@,
        )
    } else if value == "远程键鼠输入已启用"@ {
        Some(
            "Remote keyboard and mouse input enabled"@,
        )
    } else if value == "系统快捷键将发送到远端"@ {
        Some(
            "System shortcuts will be sent remotely"@,
        )
    } else if value == "系统快捷键保留在本机"@ {
        Some(
            "System shortcuts will stay local"@,
        )
    } else if value == "已删除历史连接"@ {
        Some(
            "Connection history entry deleted"@,
        )
    } else if value == "正在当前 Session 窗口中连接…"@ {
        Some(
            "Connecting in the current session window..."@,
        )
    } else if value == "无法确定导出目录"@ {
        Some(
            "Could not determine the export directory"@,
        )
    } else {
        None
    }
}

/// The English for a text of the outcome of an action.
fn status_text(value: &Vec<char>) -> (english: Option<&'static str>)
    ensures
        text_view(english) == spec_status_text(value@),
{
    if text::chars_match(value, "已复制设备地址") {
        Some(
            "Device address copied",
        )
    } else if text::chars_match(value, "已复制用户名") {
        Some(
            "Username copied",
        )
    } else if text::chars_match(value, "请输入有效的设备地址和端口") {
        Some(
            "Enter a valid device address and port",
        )
    } else if text::chars_match(value, "历史连接已更新") {
        Some(
            "Connection history updated",
        )
    } else if text::chars_match(value, "已加入历史连接") {
        Some(
            "Added to connection history",
        )
    } else if text::chars_match(value, "按键映射已恢复默认") {
        Some(
            "Key mappings restored to defaults",
        )
    } else if text::chars_match(value, "请输入设备地址和用户名") {
        Some(
            "Enter a device address and username",
        )
    } else if text::chars_match(value, "请输入有效端口（1–65535）") {
        Some(
            "Enter a valid port (1-65535)",
        )
    } else if text::chars_match(value, "请输入密码") {
        Some(
            "Enter a password",
        )
    } else if text::chars_match(value, "保存的密码不可用，请重新输入") {
        Some(
            "The saved password is unavailable. Enter it again.",
        )
    } else if text::chars_match(value, "已复制按键预设") {
        Some(
            "Key preset duplicated",
        )
    } else if text::chars_match(value, "已添加常用映射") {
        Some(
            "Mapping added",
        )
    } else if text::chars_match(value, "已移除按键映射") {
        Some(
            "Key mapping removed",
        )
    } else if text::chars_match(value, "远程键鼠输入已启用") {
        Some(
            "Remote keyboard and mouse input enabled",
        )
    } else if text::chars_match(value, "系统快捷键将发送到远端") {
        Some(
            "System shortcuts will be sent remotely",
        )
    } else if text::chars_match(value, "系统快捷键保留在本机") {
        Some(
            "System shortcuts will stay local",
        )
    } else if text::chars_match(value, "已删除历史连接") {
        Some(
            "Connection history entry deleted",
        )
    } else if text::chars_match(value, "正在当前 Session 窗口中连接…") {
        Some(
            "Connecting in the current session window...",
        )
    } else if text::chars_match(value, "无法确定导出目录") {
        Some(
            "Could not determine the export directory",
        )
    } else {
        None
    }
}

/// The English for a text of dialogs and failures.
pub open spec fn spec_dialog_text(value: Seq<char>) -> Option<Seq<char>> {
    if value == "退出 ARD Viewer？"@ {
        Some(
            "Quit ARD Viewer?"@,
        )
    } else if value == "打开的设置和远程会话也会一并关闭。"@ {
        Some(
            "Open settings and remote sessions will also close."@,
        )
    } else if value == "关闭设置窗口？"@ {
        Some(
            "Close the settings window?"@,
        )
    } else if value == "确认关闭当前设置窗口。"@ {
        Some(
            "Close the current settings window."@,
        )
    } else if value == "关闭远程会话？"@ {
        Some(
            "Close the remote session?"@,
        )
    } else if value == "当前远程连接将会断开。"@ {
        Some(
            "The current remote connection will be disconnected."@,
        )
    } else if value == "会话缓存已损坏"@ {
        Some(
            "The session buffer is corrupted"@,
        )
    } else if value == "无法将远程 framebuffer 转换为 RGBA 显示数据"@ {
        Some(
            "Could not convert the remote framebuffer to RGBA display data"@,
        )
    } else if value == "远程输入缓存已满"@ {
        Some(
            "The remote input buffer is full"@,
        )
    } else if value == "远程输入调度器已停止"@ {
        Some(
            "The remote input dispatcher has stopped"@,
        )
    } else if value == "远程输入尚未就绪"@ {
        Some(
            "Remote input is not ready"@,
        )
    } else {
        None
    }
}

/// The English for a text of dialogs and failures.
fn dialog_text(value: &Vec<char>) -> (english: Option<&'static str>)
    ensures
        text_view(english) == spec_dialog_text(value@),
{
    if text::chars_match(value, "退出 ARD Viewer？") {
        Some(
            "Quit ARD Viewer?",
        )
    } else if text::chars_match(value, "打开的设置和远程会话也会一并关闭。") {
        Some(
            "Open settings and remote sessions will also close.",
        )
    } else if text::chars_match(value, "关闭设置窗口？") {
        Some(
            "Close the settings window?",
        )
    } else if text::chars_match(value, "确认关闭当前设置窗口。") {
        Some(
            "Close the current settings window.",
        )
    } else if text::chars_match(value, "关闭远程会话？") {
        Some(
            "Close the remote session?",
        )
    } else if text::chars_match(value, "当前远程连接将会断开。") {
        Some(
            "The current remote connection will be disconnected.",
        )
    } else if text::chars_match(value, "会话缓存已损坏") {
        Some(
            "The session buffer is corrupted",
        )
    } else if text::chars_match(value, "无法将远程 framebuffer 转换为 RGBA 显示数据") {
        Some(
            "Could not convert the remote framebuffer to RGBA display data",
        )
    } else if text::chars_match(value, "远程输入缓存已满") {
        Some(
            "The remote input buffer is full",
        )
    } else if text::chars_match(value, "远程输入调度器已停止") {
        Some(
            "The remote input dispatcher has stopped",
        )
    } else if text::chars_match(value, "远程输入尚未就绪") {
        Some(
            "Remote input is not ready",
        )
    } else {
        None
    }
}

/// The view of an optional text.
pub open spec fn text_view(text: Option<&str>) -> Option<Seq<char>> {
    match text {
        Some(t) => Some(t@),
        None => None,
    }
}

/// The English for a text, if there is one.
pub open spec fn english(value: Seq<char>) -> Option<Seq<char>> {
    if spec_connection_text(value) is Some {
        spec_connection_text(value)
    } else if spec_settings_text(value) is Some {
        spec_settings_text(value)
    } else if spec_keys_text(value) is Some {
        spec_keys_text(value)
    } else if spec_about_text(value) is Some {
        spec_about_text(value)
    } else if spec_choice_text(value) is Some {
        spec_choice_text(value)
    } else if spec_status_text(value) is Some {
        spec_status_text(value)
    } else {
        spec_dialog_text(value)
    }
}

/// A text in a language: texts are written in Chinese, and one without an
/// English counterpart stays as it is.
pub open spec fn translation(language: Language, value: Seq<char>) -> Seq<char> {
    match language {
        Language::SimplifiedChinese => value,
        Language::English => match english(value) {
            Some(translated) => translated,
            None => value,
        },
    }
}

impl Language {
    /// The languages, in the order in which they are offered.
    pub fn all() -> (all: [Language; 2])
        ensures
            all@ == seq![Language::SimplifiedChinese, Language::English],
    {
        [Language::SimplifiedChinese, Language::English]
    }

    /// The language that a code stands for; an unknown code stands for Chinese.
    pub fn from_code(code: &str) -> (language: Self)
        ensures
            language == language_of(code@),
    {
        if text::same_text(code, "en") || text::same_text(code, "en-US") || text::same_text(
            code,
            "en-GB",
        ) {
            Language::English
        } else {
            Language::SimplifiedChinese
        }
    }

    /// The code of the language.
    pub fn code(self) -> (code: &'static str)
        ensures
            code@ == code_of(self),
    {
        match self {
            Language::SimplifiedChinese => "zh-CN",
            Language::English => "en",
        }
    }

    /// The name of the language in the language itself.
    pub fn label(self) -> (label: &'static str)
        ensures
            label@ == match self {
                Language::SimplifiedChinese => "简体中文"@,
                Language::English => "English"@,
            },
    {
        match self {
            Language::SimplifiedChinese => "简体中文",
            Language::English => "English",
        }
    }

    /// A text in this language.
    pub fn tr<'a>(self, value: &'a str) -> (translated: &'a str)
        ensures
            translated@ == translation(self, value@),
    {
        if self == Language::SimplifiedChinese {
            return value;
        }
        let chars = text::chars_of(value);
        if let Some(translated) = connection_text(&chars) {
            return translated;
        }
        if let Some(translated) = settings_text(&chars) {
            return translated;
        }
        if let Some(translated) = keys_text(&chars) {
            return translated;
        }
        if let Some(translated) = about_text(&chars) {
            return translated;
        }
        if let Some(translated) = choice_text(&chars) {
            return translated;
        }
        if let Some(translated) = status_text(&chars) {
            return translated;
        }
        if let Some(translated) = dialog_text(&chars) {
            return translated;
        }
        value
    }
}

/// A language survives the configuration file.
pub proof fn law_language_round_trip(language: Language)
    ensures
        language_of(code_of(language)) == language,
{
    reveal_strlit("zh-CN");
    reveal_strlit("en");
    reveal_strlit("en-US");
    reveal_strlit("en-GB");
    assert("zh-CN"@[0] == 'z');
    assert("en"@.len() == 2);
    assert("en-US"@[0] == 'e');
    assert("en-GB"@[0] == 'e');
}

/// Whether a text begins or ends with a character outside of ASCII.
spec fn has_foreign_end(value: Seq<char>) -> bool {
    value.len() > 0 && (value[0] as u32 >= 128 || value.last() as u32 >= 128)
}

/// Every text with an English counterpart has such an end, and no counterpart has.
spec fn ends_tell(value: Seq<char>, translated: Option<Seq<char>>) -> bool {
    translated matches Some(t) ==> has_foreign_end(value) && !has_foreign_end(t)
}

proof fn lemma_connection_ends(value: Seq<char>)
    ensures
        ends_tell(value, spec_connection_text(value)),
{
    if value == "可连接"@ {
        reveal_strlit("可连接");
        reveal_strlit("Available");
    } else if value == "历史记录"@ {
        reveal_strlit("历史记录");
        reveal_strlit("History");
    } else if value == "最近连接"@ {
        reveal_strlit("最近连接");
        reveal_strlit("Recently connected");
    } else if value == "历史连接"@ {
        reveal_strlit("历史连接");
        reveal_strlit("Connection history");
    } else if value == "选择记录可快速填写"@ {
        reveal_strlit("选择记录可快速填写");
        reveal_strlit("Select an entry to fill the form");
    } else if value == "搜索历史连接"@ {
        reveal_strlit("搜索历史连接");
        reveal_strlit("Search connection history");
    } else if value == "暂无历史连接"@ {
        reveal_strlit("暂无历史连接");
        reveal_strlit("No connection history");
    } else if value == "未找到匹配记录"@ {
        reveal_strlit("未找到匹配记录");
        reveal_strlit("No matching entries");
    } else if value == "连接成功后会显示在这里"@ {
        reveal_strlit("连接成功后会显示在这里");
        reveal_strlit("Successful connections appear here");
    } else if value == "请尝试其他关键词"@ {
        reveal_strlit("请尝试其他关键词");
        reveal_strlit("Try a different search");
    } else if value == "连接"@ {
        reveal_strlit("连接");
        reveal_strlit("Connect");
    } else if value == "复制地址"@ {
        reveal_strlit("复制地址");
        reveal_strlit("Copy address");
    } else if value == "复制用户名"@ {
        reveal_strlit("复制用户名");
        reveal_strlit("Copy username");
    } else if value == "删除记录"@ {
        reveal_strlit("删除记录");
        reveal_strlit("Delete entry");
    } else if value == "连接到远程设备"@ {
        reveal_strlit("连接到远程设备");
        reveal_strlit("Connect to a remote device");
    } else if value == "输入远程地址和凭据，密码由系统安全存储。"@ {
        reveal_strlit("输入远程地址和凭据，密码由系统安全存储。");
        reveal_strlit("Enter the remote address and credentials. Passwords are stored securely.");
    } else if value == "远程地址"@ {
        reveal_strlit("远程地址");
        reveal_strlit("Remote address");
    } else if value == "端口"@ {
        reveal_strlit("端口");
        reveal_strlit("Port");
    } else if value == "默认 5900"@ {
        reveal_strlit("默认 5900");
        reveal_strlit("Default 5900");
    } else if value == "用户名"@ {
        reveal_strlit("用户名");
        reveal_strlit("Username");
    } else if value == "远程账户名"@ {
        reveal_strlit("远程账户名");
        reveal_strlit("Remote account name");
    } else if value == "已安全保存"@ {
        reveal_strlit("已安全保存");
        reveal_strlit("Saved securely");
    } else if value == "输入远程密码"@ {
        reveal_strlit("输入远程密码");
        reveal_strlit("Enter remote password");
    } else if value == "密码"@ {
        reveal_strlit("密码");
        reveal_strlit("Password");
    } else if value == "记住密码"@ {
        reveal_strlit("记住密码");
        reveal_strlit("Remember password");
    } else if value == "添加到历史连接"@ {
        reveal_strlit("添加到历史连接");
        reveal_strlit("Add to connection history");
    } else if value == "连接参数"@ {
        reveal_strlit("连接参数");
        reveal_strlit("Connection options");
    } else if value == "视频质量"@ {
        reveal_strlit("视频质量");
        reveal_strlit("Video quality");
    } else if value == "帧率 (FPS)"@ {
        reveal_strlit("帧率 (FPS)");
        reveal_strlit("Frame rate (FPS)");
    } else if value == "自动"@ {
        reveal_strlit("自动");
        reveal_strlit("Auto");
    } else if value == "像素格式：服务器原生  ·  缩放：适应窗口  ·  自动重连：已启用"@ {
        reveal_strlit("像素格式：服务器原生  ·  缩放：适应窗口  ·  自动重连：已启用");
        reveal_strlit("Pixel format: Server native  ·  Scaling: Fit window  ·  Auto reconnect: On");
    } else if value == "密码使用应用本地加密凭据库保存，不写入明文配置文件。"@ {
        reveal_strlit("密码使用应用本地加密凭据库保存，不写入明文配置文件。");
        reveal_strlit("Passwords are stored in the app's encrypted credential vault, not in plain-text configuration.");
    } else if value == "导出快捷方式"@ {
        reveal_strlit("导出快捷方式");
        reveal_strlit("Export shortcuts");
    } else if value == "加入历史"@ {
        reveal_strlit("加入历史");
        reveal_strlit("Add to history");
    }
}

proof fn lemma_settings_ends(value: Seq<char>)
    ensures
        ends_tell(value, spec_settings_text(value)),
{
    if value == "设置"@ {
        reveal_strlit("设置");
        reveal_strlit("Settings");
    } else if value == "偏好设置"@ {
        reveal_strlit("偏好设置");
        reveal_strlit("Preferences");
    } else if value == "常规"@ {
        reveal_strlit("常规");
        reveal_strlit("General");
    } else if value == "显示与性能"@ {
        reveal_strlit("显示与性能");
        reveal_strlit("Display & performance");
    } else if value == "按键映射"@ {
        reveal_strlit("按键映射");
        reveal_strlit("Key mapping");
    } else if value == "安全"@ {
        reveal_strlit("安全");
        reveal_strlit("Security");
    } else if value == "关于"@ {
        reveal_strlit("关于");
        reveal_strlit("About");
    } else if value == "当前使用深色外观"@ {
        reveal_strlit("当前使用深色外观");
        reveal_strlit("Dark appearance is currently active");
    } else if value == "当前使用浅色外观"@ {
        reveal_strlit("当前使用浅色外观");
        reveal_strlit("Light appearance is currently active");
    } else if value == "配置应用的通用行为。"@ {
        reveal_strlit("配置应用的通用行为。");
        reveal_strlit("Configure general application behavior.");
    } else if value == "外观"@ {
        reveal_strlit("外观");
        reveal_strlit("Appearance");
    } else if value == "主题模式"@ {
        reveal_strlit("主题模式");
        reveal_strlit("Theme");
    } else if value == "语言"@ {
        reveal_strlit("语言");
        reveal_strlit("Language");
    } else if value == "显示会话性能信息"@ {
        reveal_strlit("显示会话性能信息");
        reveal_strlit("Show session performance information");
    } else if value == "输入控制"@ {
        reveal_strlit("输入控制");
        reveal_strlit("Input controls");
    } else if value == "反转滚轮方向"@ {
        reveal_strlit("反转滚轮方向");
        reveal_strlit("Reverse scroll direction");
    } else if value == "滚动倍数"@ {
        reveal_strlit("滚动倍数");
        reveal_strlit("Scroll multiplier");
    } else if value == "同时反转垂直和水平滚动方向。"@ {
        reveal_strlit("同时反转垂直和水平滚动方向。");
        reveal_strlit("Reverse both vertical and horizontal scrolling.");
    } else if value == "提高远程界面的滚轮滚动速度。"@ {
        reveal_strlit("提高远程界面的滚轮滚动速度。");
        reveal_strlit("Increase the wheel scrolling speed in the remote view.");
    }
}

proof fn lemma_keys_ends(value: Seq<char>)
    ensures
        ends_tell(value, spec_keys_text(value)),
{
    if value == "配置本地按键如何发送到远程设备。"@ {
        reveal_strlit("配置本地按键如何发送到远程设备。");
        reveal_strlit("Configure how local keys are sent to the remote device.");
    } else if value == "预设"@ {
        reveal_strlit("预设");
        reveal_strlit("Preset");
    } else if value == "macOS 默认"@ {
        reveal_strlit("macOS 默认");
        reveal_strlit("macOS Default");
    } else if value == "Windows 默认"@ {
        reveal_strlit("Windows 默认");
        reveal_strlit("Windows Default");
    } else if value == "Linux 默认"@ {
        reveal_strlit("Linux 默认");
        reveal_strlit("Linux Default");
    } else if value == "复制预设"@ {
        reveal_strlit("复制预设");
        reveal_strlit("Duplicate preset");
    } else if value == "重置"@ {
        reveal_strlit("重置");
        reveal_strlit("Reset");
    } else if value == "本地按键"@ {
        reveal_strlit("本地按键");
        reveal_strlit("Local key");
    } else if value == "远程动作"@ {
        reveal_strlit("远程动作");
        reveal_strlit("Remote action");
    } else if value == "作用域"@ {
        reveal_strlit("作用域");
        reveal_strlit("Scope");
    } else if value == "添加常用映射"@ {
        reveal_strlit("添加常用映射");
        reveal_strlit("Add mapping");
    } else if value == "拖动可调整优先级"@ {
        reveal_strlit("拖动可调整优先级");
        reveal_strlit("Drag to change priority");
    } else if value == "常用选项"@ {
        reveal_strlit("常用选项");
        reveal_strlit("Common options");
    } else if value == "自动适配远程键盘布局"@ {
        reveal_strlit("自动适配远程键盘布局");
        reveal_strlit("Adapt to remote keyboard layout");
    } else if value == "在全屏模式中捕获系统快捷键"@ {
        reveal_strlit("在全屏模式中捕获系统快捷键");
        reveal_strlit("Capture system shortcuts in fullscreen");
    }
}

proof fn lemma_about_ends(value: Seq<char>)
    ensures
        ends_tell(value, spec_about_text(value)),
{
    if value == "设置远程画面的质量和性能。"@ {
        reveal_strlit("设置远程画面的质量和性能。");
        reveal_strlit("Configure remote display quality and performance.");
    } else if value == "远程画面"@ {
        reveal_strlit("远程画面");
        reveal_strlit("Remote display");
    } else if value == "管理本地凭据与连接数据。"@ {
        reveal_strlit("管理本地凭据与连接数据。");
        reveal_strlit("Manage local credentials and connection data.");
    } else if value == "凭据存储"@ {
        reveal_strlit("凭据存储");
        reveal_strlit("Credential storage");
    } else if value == "在应用本地加密凭据库中保存当前设备密码"@ {
        reveal_strlit("在应用本地加密凭据库中保存当前设备密码");
        reveal_strlit("Save the current device password in the app's encrypted vault");
    } else if value == "密码保存在独立的 AES-256-GCM 加密文件中，不会写入明文配置。"@ {
        reveal_strlit("密码保存在独立的 AES-256-GCM 加密文件中，不会写入明文配置。");
        reveal_strlit("Passwords are stored in a separate AES-256-GCM encrypted file and never written to plain-text configuration.");
    } else if value == "Apple Remote Desktop 原生 Rust 客户端。"@ {
        reveal_strlit("Apple Remote Desktop 原生 Rust 客户端。");
        reveal_strlit("A native Rust client for Apple Remote Desktop.");
    } else if value == "支持 ARD 认证、加密传输、MVS GPU 解码、键鼠输入、剪贴板与自动重连。"@ {
        reveal_strlit("支持 ARD 认证、加密传输、MVS GPU 解码、键鼠输入、剪贴板与自动重连。");
        reveal_strlit("Supports ARD authentication, encrypted transport, MVS GPU decoding, keyboard and mouse input, clipboard sync, and automatic reconnection.");
    } else if value == "许可证：MIT OR Apache-2.0"@ {
        reveal_strlit("许可证：MIT OR Apache-2.0");
        reveal_strlit("License: MIT OR Apache-2.0");
    }
}

proof fn lemma_choice_ends(value: Seq<char>)
    ensures
        ends_tell(value, spec_choice_text(value)),
{
    if value == "低画质"@ {
        reveal_strlit("低画质");
        reveal_strlit("Low");
    } else if value == "低"@ {
        reveal_strlit("低");
        reveal_strlit("Low");
    } else if value == "中画质"@ {
        reveal_strlit("中画质");
        reveal_strlit("Medium");
    } else if value == "中"@ {
        reveal_strlit("中");
        reveal_strlit("Medium");
    } else if value == "高画质"@ {
        reveal_strlit("高画质");
        reveal_strlit("High");
    } else if value == "高"@ {
        reveal_strlit("高");
        reveal_strlit("High");
    } else if value == "自适应 MVS"@ {
        reveal_strlit("自适应 MVS");
        reveal_strlit("Adaptive");
    } else if value == "自适应"@ {
        reveal_strlit("自适应");
        reveal_strlit("Adaptive");
    } else if value == "全画质"@ {
        reveal_strlit("全画质");
        reveal_strlit("Full");
    } else if value == "完整"@ {
        reveal_strlit("完整");
        reveal_strlit("Full");
    } else if value == "跟随系统"@ {
        reveal_strlit("跟随系统");
        reveal_strlit("System");
    } else if value == "浅色"@ {
        reveal_strlit("浅色");
        reveal_strlit("Light");
    } else if value == "深色"@ {
        reveal_strlit("深色");
        reveal_strlit("Dark");
    } else if value == "复制"@ {
        reveal_strlit("复制");
        reveal_strlit("Copy");
    } else if value == "粘贴"@ {
        reveal_strlit("粘贴");
        reveal_strlit("Paste");
    } else if value == "强制退出"@ {
        reveal_strlit("强制退出");
        reveal_strlit("Force Quit");
    } else if value == "安全选项"@ {
        reveal_strlit("安全选项");
        reveal_strlit("Security options");
    } else if value == "切换远程窗口"@ {
        reveal_strlit("切换远程窗口");
        reveal_strlit("Switch remote window");
    } else if value == "显示桌面"@ {
        reveal_strlit("显示桌面");
        reveal_strlit("Show desktop");
    } else if value == "全局"@ {
        reveal_strlit("全局");
        reveal_strlit("Global");
    } else if value == "会话"@ {
        reveal_strlit("会话");
        reveal_strlit("Session");
    } else if value == "取消"@ {
        reveal_strlit("取消");
        reveal_strlit("Cancel");
    } else if value == "关闭"@ {
        reveal_strlit("关闭");
        reveal_strlit("Close");
    }
}

proof fn lemma_status_ends(value: Seq<char>)
    ensures
        ends_tell(value, spec_status_text(value)),
{
    if value == "已复制设备地址"@ {
        reveal_strlit("已复制设备地址");
        reveal_strlit("Device address copied");
    } else if value == "已复制用户名"@ {
        reveal_strlit("已复制用户名");
        reveal_strlit("Username copied");
    } else if value == "请输入有效的设备地址和端口"@ {
        reveal_strlit("请输入有效的设备地址和端口");
        reveal_strlit("Enter a valid device address and port");
    } else if value == "历史连接已更新"@ {
        reveal_strlit("历史连接已更新");
        reveal_strlit("Connection history updated");
    } else if value == "已加入历史连接"@ {
        reveal_strlit("已加入历史连接");
        reveal_strlit("Added to connection history");
    } else if value == "按键映射已恢复默认"@ {
        reveal_strlit("按键映射已恢复默认");
        reveal_strlit("Key mappings restored to defaults");
    } else if value == "请输入设备地址和用户名"@ {
        reveal_strlit("请输入设备地址和用户名");
        reveal_strlit("Enter a device address and username");
    } else if value == "请输入有效端口（1–65535）"@ {
        reveal_strlit("请输入有效端口（1–65535）");
        reveal_strlit("Enter a valid port (1-65535)");
    } else if value == "请输入密码"@ {
        reveal_strlit("请输入密码");
        reveal_strlit("Enter a password");
    } else if value == "保存的密码不可用，请重新输入"@ {
        reveal_strlit("保存的密码不可用，请重新输入");
        reveal_strlit("The saved password is unavailable. Enter it again.");
    } else if value == "已复制按键预设"@ {
        reveal_strlit("已复制按键预设");
        reveal_strlit("Key preset duplicated");
    } else if value == "已添加常用映射"@ {
        reveal_strlit("已添加常用映射");
        reveal_strlit("Mapping added");
    } else if value == "已移除按键映射"@ {
        reveal_strlit("已移除按键映射");
        reveal_strlit("Key mapping removed");
    } else if value == "远程键鼠输入已启用"@ {
        reveal_strlit("远程键鼠输入已启用");
        reveal_strlit("Remote keyboard and mouse input enabled");
    } else if value == "系统快捷键将发送到远端"@ {
        reveal_strlit("系统快捷键将发送到远端");
        reveal_strlit("System shortcuts will be sent remotely");
    } else if value == "系统快捷键保留在本机"@ {
        reveal_strlit("系统快捷键保留在本机");
        reveal_strlit("System shortcuts will stay local");
    } else if value == "已删除历史连接"@ {
        reveal_strlit("已删除历史连接");
        reveal_strlit("Connection history entry deleted");
    } else if value == "正在当前 Session 窗口中连接…"@ {
        reveal_strlit("正在当前 Session 窗口中连接…");
        reveal_strlit("Connecting in the current session window...");
    } else if value == "无法确定导出目录"@ {
        reveal_strlit("无法确定导出目录");
        reveal_strlit("Could not determine the export directory");
    }
}

proof fn lemma_dialog_ends(value: Seq<char>)
    ensures
        ends_tell(value, spec_dialog_text(value)),
{
    if value == "退出 ARD Viewer？"@ {
        reveal_strlit("退出 ARD Viewer？");
        reveal_strlit("Quit ARD Viewer?");
    } else if value == "打开的设置和远程会话也会一并关闭。"@ {
        reveal_strlit("打开的设置和远程会话也会一并关闭。");
        reveal_strlit("Open settings and remote sessions will also close.");
    } else if value == "关闭设置窗口？"@ {
        reveal_strlit("关闭设置窗口？");
        reveal_strlit("Close the settings window?");
    } else if value == "确认关闭当前设置窗口。"@ {
        reveal_strlit("确认关闭当前设置窗口。");
        reveal_strlit("Close the current settings window.");
    } else if value == "关闭远程会话？"@ {
        reveal_strlit("关闭远程会话？");
        reveal_strlit("Close the remote session?");
    } else if value == "当前远程连接将会断开。"@ {
        reveal_strlit("当前远程连接将会断开。");
        reveal_strlit("The current remote connection will be disconnected.");
    } else if value == "会话缓存已损坏"@ {
        reveal_strlit("会话缓存已损坏");
        reveal_strlit("The session buffer is corrupted");
    } else if value == "无法将远程 framebuffer 转换为 RGBA 显示数据"@ {
        reveal_strlit("无法将远程 framebuffer 转换为 RGBA 显示数据");
        reveal_strlit("Could not convert the remote framebuffer to RGBA display data");
    } else if value == "远程输入缓存已满"@ {
        reveal_strlit("远程输入缓存已满");
        reveal_strlit("The remote input buffer is full");
    } else if value == "远程输入调度器已停止"@ {
        reveal_strlit("远程输入调度器已停止");
        reveal_strlit("The remote input dispatcher has stopped");
    } else if value == "远程输入尚未就绪"@ {
        reveal_strlit("远程输入尚未就绪");
        reveal_strlit("Remote input is not ready");
    }
}

proof fn lemma_ends(value: Seq<char>)
    ensures
        ends_tell(value, english(value)),
{
    lemma_connection_ends(value);
    lemma_settings_ends(value);
    lemma_keys_ends(value);
    lemma_about_ends(value);
    lemma_choice_ends(value);
    lemma_status_ends(value);
    lemma_dialog_ends(value);
}

/// Texts are written in Chinese, so translating into it changes nothing; and no
/// translation is itself translated, so that translating twice gives what
/// translating once gives.
pub proof fn law_translating_twice_changes_nothing(language: Language, value: Seq<char>)
    ensures
        translation(Language::SimplifiedChinese, value) == value,
        translation(language, translation(language, value)) == translation(language, value),
{
    lemma_ends(value);
    if let Some(translated) = english(value) {
        lemma_ends(translated);
    }
}

} // verus!
