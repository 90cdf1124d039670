//! The views of the activity bar and what the sidebar shows for each.
use vstd::prelude::*;

verus! {

/// The views that the activity bar switches between.
#[derive(Clone, Copy, Debug, PartialEq, Eq, Structural)]
pub enum ActivityBarView {
    Explorer,
    SourceControl,
    Terminal,
    Settings,
    AiAssistant,
}

/// Display name of a view.
pub open spec fn view_label(v: ActivityBarView) -> Seq<char> {
    match v {
        ActivityBarView::Explorer => "资源管理器"@,
        ActivityBarView::SourceControl => "源代码管理"@,
        ActivityBarView::Terminal => "终端"@,
        ActivityBarView::Settings => "设置"@,
        ActivityBarView::AiAssistant => "AI 助手"@,
    }
}

/// Icon of a view.
pub open spec fn view_icon(v: ActivityBarView) -> Seq<char> {
    match v {
        ActivityBarView::Explorer => "📁"@,
        ActivityBarView::SourceControl => "🌿"@,
        ActivityBarView::Terminal => "⌨"@,
        ActivityBarView::Settings => "⚙"@,
        ActivityBarView::AiAssistant => "🤖"@,
    }
}

impl ActivityBarView {
    /// Display name of the view.
    pub fn label(&self) -> (r: &'static str)
        ensures
            r@ == view_label(*self),
    {
        match self {
            ActivityBarView::Explorer => "资源管理器",
            ActivityBarView::SourceControl => "源代码管理",
            ActivityBarView::Terminal => "终端",
            ActivityBarView::Settings => "设置",
            ActivityBarView::AiAssistant => "AI 助手",
        }
    }

    /// Icon of the view.
    pub fn icon(&self) -> (r: &'static str)
        ensures
            r@ == view_icon(*self),
    {
        match self {
            ActivityBarView::Explorer => "📁",
            ActivityBarView::SourceControl => "🌿",
            ActivityBarView::Terminal => "⌨",
            ActivityBarView::Settings => "⚙",
            ActivityBarView::AiAssistant => "🤖",
        }
    }
}

/// What the sidebar shows.
#[derive(Clone, Copy, Debug, PartialEq, Eq, Structural)]
pub enum SidebarContent {
    FileTree,
    SourceControlPanel,
    TerminalPanel,
    SettingsPanel,
    RemoteFileTree,
    AiAssistantPanel,
}

/// The sidebar content that belongs to a view.
pub open spec fn content_of(v: ActivityBarView) -> SidebarContent {
    match v {
        ActivityBarView::Explorer => SidebarContent::FileTree,
        ActivityBarView::SourceControl => SidebarContent::SourceControlPanel,
        ActivityBarView::Terminal => SidebarContent::TerminalPanel,
        ActivityBarView::Settings => SidebarContent::SettingsPanel,
        ActivityBarView::AiAssistant => SidebarContent::AiAssistantPanel,
    }
}

impl SidebarContent {
    /// The sidebar content for `view`.
    pub fn from_view(view: ActivityBarView) -> (r: Self)
        ensures
            r == content_of(view),
    {
        match view {
            ActivityBarView::Explorer => SidebarContent::FileTree,
            ActivityBarView::SourceControl => SidebarContent::SourceControlPanel,
            ActivityBarView::Terminal => SidebarContent::TerminalPanel,
            ActivityBarView::Settings => SidebarContent::SettingsPanel,
            ActivityBarView::AiAssistant => SidebarContent::AiAssistantPanel,
        }
    }

    /// Whether this is the AI assistant panel.
    pub fn is_ai_assistant(&self) -> (r: bool)
        ensures
            r == (*self == SidebarContent::AiAssistantPanel),
    {
        match self {
            SidebarContent::AiAssistantPanel => true,
            _ => false,
        }
    }
}

/// Different views show different sidebar contents, and no view shows the
/// remote file tree.
pub proof fn lemma_content_of_injective(a: ActivityBarView, b: ActivityBarView)
    ensures
        content_of(a) == content_of(b) ==> a == b,
        content_of(a) != SidebarContent::RemoteFileTree,
{
}

} // verus!
