//! Loadout Sync errors: every failure path has its own variant, a stable code
//! and a user-facing message.
//!
//! Match scores are carried in hundredths (the two decimals the messages show).
use vstd::prelude::*;
use crate::text::{decimal, decimal_02, push_char, push_decimal, push_decimal_02, push_str};

verus! {

/// Every failure of a loadout sync run.
#[derive(Debug, Clone, PartialEq)]
pub enum LoadoutSyncError {
    /// Local validation failed: missing / duplicate / invalid slot content.
    InvalidSelection { detail: String },
    /// The game window was not found.
    GameNotFound,
    /// The game is not the foreground window.
    GameNotForeground,
    /// The window exists but cannot be used (minimised / zero size).
    GameWindowInvalid { detail: String },
    /// Capturing the client area failed.
    CaptureFailed { detail: String },
    /// The frame is not the loadout home screen (score in hundredths).
    LoadoutHomeNotDetected { score: i64 },
    /// Some stratagem slots are already filled.
    LoadoutNotEmpty { filled: usize },
    /// A game slot region was not detected.
    SlotNotDetected { slot: usize },
    /// No selection list appeared after clicking a slot.
    ListNotDetected { slot: usize },
    /// The target was not found in the list.
    TargetNotFound { name: String },
    /// Scrolling did not move the viewport as expected.
    ViewportNavigationFailed { detail: String },
    /// Recognition confidence too low (score in hundredths).
    RecognitionUnsupported { name: String, score: i64 },
    /// Hover verification failed (score in hundredths).
    HoverVerificationFailed { name: String, score: i64 },
    /// The click could not be confirmed.
    SelectionVerificationFailed { name: String },
    /// The final loadout differs from the configuration.
    FinalVerificationFailed { detail: String },
    /// Input injection failed.
    InputError { detail: String },
    /// Input injection was refused for lack of privilege.
    PermissionError,
    /// A stage timed out.
    Timeout { stage: &'static str, ms: u64 },
    /// The user cancelled.
    Cancelled,
    /// Internal state machine inconsistency.
    UnexpectedState { detail: String },
}

/// `{:.2}` of a value held in hundredths.
pub open spec fn fixed2(h: int) -> Seq<char> {
    let a = if h < 0 { -h } else { h };
    let body = decimal((a / 100) as nat) + seq!['.'] + decimal_02((a % 100) as nat);
    if h < 0 { seq!['-'] + body } else { body }
}

/// Appends `{:.2}` of a value held in hundredths.
pub fn push_fixed2(s: &mut String, h: i64)
    ensures
        final(s)@ == old(s)@ + fixed2(h as int),
{
    let a: u64 = if h < 0 {
        if h == i64::MIN {
            9223372036854775808u64
        } else {
            (-h) as u64
        }
    } else {
        h as u64
    };
    if h < 0 {
        push_char(s, '-');
    }
    let ghost s1 = s@;
    push_decimal(s, a / 100);
    push_char(s, '.');
    push_decimal_02(s, a % 100);
    assert(final(s)@ =~= old(s)@ + fixed2(h as int));
}

impl LoadoutSyncError {
    /// Stable mnemonic of the variant.
    pub open spec fn code_spec(&self) -> Seq<char> {
        match self {
            Self::InvalidSelection { .. } => "InvalidSelection"@,
            Self::GameNotFound => "GameNotFound"@,
            Self::GameNotForeground => "GameNotForeground"@,
            Self::GameWindowInvalid { .. } => "GameWindowInvalid"@,
            Self::CaptureFailed { .. } => "CaptureFailed"@,
            Self::LoadoutHomeNotDetected { .. } => "LoadoutHomeNotDetected"@,
            Self::LoadoutNotEmpty { .. } => "LoadoutNotEmpty"@,
            Self::SlotNotDetected { .. } => "SlotNotDetected"@,
            Self::ListNotDetected { .. } => "ListNotDetected"@,
            Self::TargetNotFound { .. } => "TargetNotFound"@,
            Self::ViewportNavigationFailed { .. } => "ViewportNavigationFailed"@,
            Self::RecognitionUnsupported { .. } => "RecognitionUnsupported"@,
            Self::HoverVerificationFailed { .. } => "HoverVerificationFailed"@,
            Self::SelectionVerificationFailed { .. } => "SelectionVerificationFailed"@,
            Self::FinalVerificationFailed { .. } => "FinalVerificationFailed"@,
            Self::InputError { .. } => "InputError"@,
            Self::PermissionError => "PermissionError"@,
            Self::Timeout { .. } => "Timeout"@,
            Self::Cancelled => "Cancelled"@,
            Self::UnexpectedState { .. } => "UnexpectedState"@,
        }
    }

    /// Stable mnemonic of the variant (written to logs).
    pub fn code(&self) -> (r: &'static str)
        ensures
            r@ == self.code_spec(),
    {
        match self {
            Self::InvalidSelection { .. } => "InvalidSelection",
            Self::GameNotFound => "GameNotFound",
            Self::GameNotForeground => "GameNotForeground",
            Self::GameWindowInvalid { .. } => "GameWindowInvalid",
            Self::CaptureFailed { .. } => "CaptureFailed",
            Self::LoadoutHomeNotDetected { .. } => "LoadoutHomeNotDetected",
            Self::LoadoutNotEmpty { .. } => "LoadoutNotEmpty",
            Self::SlotNotDetected { .. } => "SlotNotDetected",
            Self::ListNotDetected { .. } => "ListNotDetected",
            Self::TargetNotFound { .. } => "TargetNotFound",
            Self::ViewportNavigationFailed { .. } => "ViewportNavigationFailed",
            Self::RecognitionUnsupported { .. } => "RecognitionUnsupported",
            Self::HoverVerificationFailed { .. } => "HoverVerificationFailed",
            Self::SelectionVerificationFailed { .. } => "SelectionVerificationFailed",
            Self::FinalVerificationFailed { .. } => "FinalVerificationFailed",
            Self::InputError { .. } => "InputError",
            Self::PermissionError => "PermissionError",
            Self::Timeout { .. } => "Timeout",
            Self::Cancelled => "Cancelled",
            Self::UnexpectedState { .. } => "UnexpectedState",
        }
    }

    /// The user-facing message of the variant.
    pub open spec fn message_spec(&self) -> Seq<char> {
        match self {
            Self::InvalidSelection { detail } => "自动装配失败："@ + detail@,
            Self::GameNotFound => "自动装配失败：未找到 HELLDIVERS 2 窗口。"@,
            Self::GameNotForeground => "自动装配失败：HELLDIVERS 2 不是当前前台窗口。"@,
            Self::GameWindowInvalid { detail } => "自动装配失败：游戏窗口不可用（"@ + detail@
                + "）。"@,
            Self::CaptureFailed { detail } => "自动装配失败：游戏画面捕获失败（"@ + detail@
                + "）。"@,
            Self::LoadoutHomeNotDetected { score } => "自动装配失败：未识别到 Loadout 主界面（匹配度 "@
                + fixed2(*score as int) + "）。请停留在配装主界面后重试。"@,
            Self::LoadoutNotEmpty { filled } => "自动装配失败：游戏当前已有 "@ + decimal(
                *filled as nat,
            ) + " 个战备，本版本仅支持四个战备槽位全空时装配（不会自动清空）。"@,
            Self::SlotNotDetected { slot } => "自动装配失败：识别不到游戏战备槽位 "@ + decimal(
                *slot as nat,
            ) + "。"@,
            Self::ListNotDetected { slot } => "自动装配失败：点击槽位 "@ + decimal(*slot as nat)
                + " 后没有出现战备选择列表。"@,
            Self::TargetNotFound { name } => "自动装配失败：列表中没有找到「"@ + name@ + "」。"@,
            Self::ViewportNavigationFailed { detail } => "自动装配失败：列表滚动未生效（"@
                + detail@ + "）。"@,
            Self::RecognitionUnsupported { name, score } => "自动装配失败：无法可靠识别「"@
                + name@ + "」（最高匹配度 "@ + fixed2(*score as int)
                + "）。游戏战备图标可能已被替换，视觉匹配无法确认。"@,
            Self::HoverVerificationFailed { name, score } => "自动装配失败：悬停验证未通过「"@
                + name@ + "」（匹配度 "@ + fixed2(*score as int) + "）。"@,
            Self::SelectionVerificationFailed { name } => "自动装配失败：点击后未能确认「"@
                + name@ + "」被选中。"@,
            Self::FinalVerificationFailed { detail } => "自动装配失败：最终 Loadout 校验未通过（"@
                + detail@ + "）。"@,
            Self::InputError { detail } => "自动装配失败：输入注入失败（"@ + detail@ + "）。"@,
            Self::PermissionError => "自动装配失败：鼠标/键盘注入被系统拒绝。请以与游戏相同或更高的权限运行 H2AC-RS（右键 → 以管理员身份运行）。"@,
            Self::Timeout { stage, ms } => "自动装配失败：阶段「"@ + stage@ + "」超时（"@
                + decimal(*ms as nat) + " ms）。"@,
            Self::Cancelled => "自动装配已取消。"@,
            Self::UnexpectedState { detail } => "自动装配失败：内部状态异常（"@ + detail@
                + "）。"@,
        }
    }

    /// The user-facing message (shown in the GUI and written to logs).
    pub fn message(&self) -> (r: String)
        ensures
            r@ == self.message_spec(),
    {
        let mut s = String::new();
        match self {
            Self::InvalidSelection { detail } => {
                push_str(&mut s, "自动装配失败：");
                push_str(&mut s, detail.as_str());
            },
            Self::GameNotFound => {
                push_str(&mut s, "自动装配失败：未找到 HELLDIVERS 2 窗口。");
            },
            Self::GameNotForeground => {
                push_str(&mut s, "自动装配失败：HELLDIVERS 2 不是当前前台窗口。");
            },
            Self::GameWindowInvalid { detail } => {
                push_str(&mut s, "自动装配失败：游戏窗口不可用（");
                push_str(&mut s, detail.as_str());
                push_str(&mut s, "）。");
            },
            Self::CaptureFailed { detail } => {
                push_str(&mut s, "自动装配失败：游戏画面捕获失败（");
                push_str(&mut s, detail.as_str());
                push_str(&mut s, "）。");
            },
            Self::LoadoutHomeNotDetected { score } => {
                push_str(&mut s, "自动装配失败：未识别到 Loadout 主界面（匹配度 ");
                push_fixed2(&mut s, *score);
                push_str(&mut s, "）。请停留在配装主界面后重试。");
            },
            Self::LoadoutNotEmpty { filled } => {
                push_str(&mut s, "自动装配失败：游戏当前已有 ");
                push_decimal(&mut s, *filled as u64);
                push_str(&mut s, " 个战备，本版本仅支持四个战备槽位全空时装配（不会自动清空）。");
            },
            Self::SlotNotDetected { slot } => {
                push_str(&mut s, "自动装配失败：识别不到游戏战备槽位 ");
                push_decimal(&mut s, *slot as u64);
                push_str(&mut s, "。");
            },
            Self::ListNotDetected { slot } => {
                push_str(&mut s, "自动装配失败：点击槽位 ");
                push_decimal(&mut s, *slot as u64);
                push_str(&mut s, " 后没有出现战备选择列表。");
            },
            Self::TargetNotFound { name } => {
                push_str(&mut s, "自动装配失败：列表中没有找到「");
                push_str(&mut s, name.as_str());
                push_str(&mut s, "」。");
            },
            Self::ViewportNavigationFailed { detail } => {
                push_str(&mut s, "自动装配失败：列表滚动未生效（");
                push_str(&mut s, detail.as_str());
                push_str(&mut s, "）。");
            },
            Self::RecognitionUnsupported { name, score } => {
                push_str(&mut s, "自动装配失败：无法可靠识别「");
                push_str(&mut s, name.as_str());
                push_str(&mut s, "」（最高匹配度 ");
                push_fixed2(&mut s, *score);
                push_str(&mut s, "）。游戏战备图标可能已被替换，视觉匹配无法确认。");
            },
            Self::HoverVerificationFailed { name, score } => {
                push_str(&mut s, "自动装配失败：悬停验证未通过「");
                push_str(&mut s, name.as_str());
                push_str(&mut s, "」（匹配度 ");
                push_fixed2(&mut s, *score);
                push_str(&mut s, "）。");
            },
            Self::SelectionVerificationFailed { name } => {
                push_str(&mut s, "自动装配失败：点击后未能确认「");
                push_str(&mut s, name.as_str());
                push_str(&mut s, "」被选中。");
            },
            Self::FinalVerificationFailed { detail } => {
                push_str(&mut s, "自动装配失败：最终 Loadout 校验未通过（");
                push_str(&mut s, detail.as_str());
                push_str(&mut s, "）。");
            },
            Self::InputError { detail } => {
                push_str(&mut s, "自动装配失败：输入注入失败（");
                push_str(&mut s, detail.as_str());
                push_str(&mut s, "）。");
            },
            Self::PermissionError => {
                push_str(
                    &mut s,
                    "自动装配失败：鼠标/键盘注入被系统拒绝。请以与游戏相同或更高的权限运行 H2AC-RS（右键 → 以管理员身份运行）。",
                );
            },
            Self::Timeout { stage, ms } => {
                push_str(&mut s, "自动装配失败：阶段「");
                push_str(&mut s, stage);
                push_str(&mut s, "」超时（");
                push_decimal(&mut s, *ms);
                push_str(&mut s, " ms）。");
            },
            Self::Cancelled => {
                push_str(&mut s, "自动装配已取消。");
            },
            Self::UnexpectedState { detail } => {
                push_str(&mut s, "自动装配失败：内部状态异常（");
                push_str(&mut s, detail.as_str());
                push_str(&mut s, "）。");
            },
        }
        assert(s@ =~= self.message_spec());
        s
    }

    /// Optional advice that goes with the message.
    pub open spec fn hint_spec(&self) -> Option<Seq<char>> {
        match self {
            Self::GameNotForeground => Some("点击游戏窗口使其成为前台窗口后再按快捷键（不会自动抢焦点）。"@),
            Self::PermissionError => Some("若游戏以管理员运行，H2AC-RS 也必须以管理员运行。"@),
            Self::LoadoutHomeNotDetected { .. } => Some("请确认游戏处于「配装 / 武装配置」界面且未被其它窗口遮挡。"@),
            Self::RecognitionUnsupported { .. } => Some("若安装了替换战备图标的 Mod，请先移除后重试。"@),
            Self::LoadoutNotEmpty { .. } => Some("请先在游戏内手动清空四个战备槽位。"@),
            _ => None,
        }
    }

    /// Optional advice that goes with the message.
    pub fn hint(&self) -> (r: Option<&'static str>)
        ensures
            r is Some == self.hint_spec() is Some,
            r is Some ==> r->0@ == self.hint_spec()->0,
    {
        match self {
            Self::GameNotForeground => Some("点击游戏窗口使其成为前台窗口后再按快捷键（不会自动抢焦点）。"),
            Self::PermissionError => Some("若游戏以管理员运行，H2AC-RS 也必须以管理员运行。"),
            Self::LoadoutHomeNotDetected { .. } => Some("请确认游戏处于「配装 / 武装配置」界面且未被其它窗口遮挡。"),
            Self::RecognitionUnsupported { .. } => Some("若安装了替换战备图标的 Mod，请先移除后重试。"),
            Self::LoadoutNotEmpty { .. } => Some("请先在游戏内手动清空四个战备槽位。"),
            _ => None,
        }
    }

    /// Whether this is the user's own cancellation (not shown as an error).
    pub fn is_cancelled(&self) -> (r: bool)
        ensures
            r == (self is Cancelled),
    {
        match self {
            Self::Cancelled => true,
            _ => false,
        }
    }

    /// `[code] message`, the text the error displays as.
    pub fn to_display_string(&self) -> (r: String)
        ensures
            r@ == "["@ + self.code_spec() + "] "@ + self.message_spec(),
    {
        let mut s = String::new();
        push_str(&mut s, "[");
        push_str(&mut s, self.code());
        push_str(&mut s, "] ");
        let m = self.message();
        push_str(&mut s, m.as_str());
        assert(s@ =~= "["@ + self.code_spec() + "] "@ + self.message_spec());
        s
    }
}

} // verus!
