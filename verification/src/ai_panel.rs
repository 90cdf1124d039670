//! The AI assistant panel: chat history, input line, quick actions, and the
//! extraction of code blocks from replies.
use vstd::prelude::*;
use crate::text::{chars_of, line_ranges, lines, push_str, to_string, trim, trim_range, utf8_len};

verus! {

/// Who wrote a chat message.
#[derive(Clone, Copy, Debug, PartialEq, Eq, Structural)]
pub enum AiRole {
    User,
    Assistant,
    System,
}

/// One chat message.
#[derive(Debug)]
pub struct AiMessage {
    pub role: AiRole,
    pub content: String,
}

/// The canned requests of the quick-action buttons.
#[derive(Clone, Copy, Debug, PartialEq, Eq, Structural)]
pub enum AiQuickAction {
    Explain,
    Refactor,
    Fix,
    Complete,
    Comment,
    Optimize,
    Test,
    Doc,
}

pub open spec fn action_label(a: AiQuickAction) -> Seq<char> {
    match a {
        AiQuickAction::Explain => "解释代码"@,
        AiQuickAction::Refactor => "重构代码"@,
        AiQuickAction::Fix => "修复问题"@,
        AiQuickAction::Complete => "补全代码"@,
        AiQuickAction::Comment => "添加注释"@,
        AiQuickAction::Optimize => "优化性能"@,
        AiQuickAction::Test => "生成测试"@,
        AiQuickAction::Doc => "生成文档"@,
    }
}

pub open spec fn action_icon(a: AiQuickAction) -> Seq<char> {
    match a {
        AiQuickAction::Explain => "💡"@,
        AiQuickAction::Refactor => "🔧"@,
        AiQuickAction::Fix => "🩹"@,
        AiQuickAction::Complete => "✨"@,
        AiQuickAction::Comment => "📝"@,
        AiQuickAction::Optimize => "🚀"@,
        AiQuickAction::Test => "🧪"@,
        AiQuickAction::Doc => "📚"@,
    }
}

/// The request text that precedes the code in a quick-action prompt.
pub open spec fn prompt_prefix(a: AiQuickAction) -> Seq<char> {
    match a {
        AiQuickAction::Explain => "请解释以下代码的功能和工作原理，用中文回答：\n\n```\n"@,
        AiQuickAction::Refactor => "请重构以下代码，提高可读性和可维护性，保持功能不变，用中文简要说明修改：\n\n```\n"@,
        AiQuickAction::Fix => "以下代码可能有问题，请分析并修复，用中文说明问题：\n\n```\n"@,
        AiQuickAction::Complete => "请补全以下代码（继续编写后续逻辑）：\n\n```\n"@,
        AiQuickAction::Comment => "请为以下代码添加清晰的中文注释：\n\n```\n"@,
        AiQuickAction::Optimize => "请优化以下代码的性能，用中文说明优化点：\n\n```\n"@,
        AiQuickAction::Test => "请为以下代码生成单元测试（使用适当的测试框架），用中文说明：\n\n```\n"@,
        AiQuickAction::Doc => "请为以下代码生成文档说明（函数文档、参数说明等），用中文：\n\n```\n"@,
    }
}

impl AiQuickAction {
    pub fn label(&self) -> (r: &'static str)
        ensures
            r@ == action_label(*self),
    {
        match self {
            AiQuickAction::Explain => "解释代码",
            AiQuickAction::Refactor => "重构代码",
            AiQuickAction::Fix => "修复问题",
            AiQuickAction::Complete => "补全代码",
            AiQuickAction::Comment => "添加注释",
            AiQuickAction::Optimize => "优化性能",
            AiQuickAction::Test => "生成测试",
            AiQuickAction::Doc => "生成文档",
        }
    }

    pub fn icon(&self) -> (r: &'static str)
        ensures
            r@ == action_icon(*self),
    {
        match self {
            AiQuickAction::Explain => "💡",
            AiQuickAction::Refactor => "🔧",
            AiQuickAction::Fix => "🩹",
            AiQuickAction::Complete => "✨",
            AiQuickAction::Comment => "📝",
            AiQuickAction::Optimize => "🚀",
            AiQuickAction::Test => "🧪",
            AiQuickAction::Doc => "📚",
        }
    }

    fn prefix(&self) -> (r: &'static str)
        ensures
            r@ == prompt_prefix(*self),
    {
        match self {
            AiQuickAction::Explain => "请解释以下代码的功能和工作原理，用中文回答：\n\n```\n",
            AiQuickAction::Refactor => "请重构以下代码，提高可读性和可维护性，保持功能不变，用中文简要说明修改：\n\n```\n",
            AiQuickAction::Fix => "以下代码可能有问题，请分析并修复，用中文说明问题：\n\n```\n",
            AiQuickAction::Complete => "请补全以下代码（继续编写后续逻辑）：\n\n```\n",
            AiQuickAction::Comment => "请为以下代码添加清晰的中文注释：\n\n```\n",
            AiQuickAction::Optimize => "请优化以下代码的性能，用中文说明优化点：\n\n```\n",
            AiQuickAction::Test => "请为以下代码生成单元测试（使用适当的测试框架），用中文说明：\n\n```\n",
            AiQuickAction::Doc => "请为以下代码生成文档说明（函数文档、参数说明等），用中文：\n\n```\n",
        }
    }

    /// The prompt sent for this action on `code`: the request, then the code
    /// in a fenced block.
    pub fn build_prompt(&self, code: &str) -> (r: String)
        ensures
            r@ == prompt_prefix(*self) + code@ + "\n```"@,
    {
        let mut r = to_string(self.prefix());
        push_str(&mut r, code);
        push_str(&mut r, "\n```");
        r
    }
}

/// The greeting the panel starts with.
pub open spec fn greeting() -> Seq<char> {
    "你好！我是 AI 助手，可以帮助你解释代码、重构、修复问题、生成测试等。你可以直接输入问题，或选中代码后使用快捷操作。"@
}

/// The greeting after the history is cleared.
pub open spec fn short_greeting() -> Seq<char> {
    "你好！我是 AI 助手，可以帮助你解释代码、重构、修复问题、生成测试等。"@
}

/// The quick actions, in button order.
pub open spec fn all_actions() -> Seq<AiQuickAction> {
    seq![
        AiQuickAction::Explain,
        AiQuickAction::Refactor,
        AiQuickAction::Fix,
        AiQuickAction::Complete,
        AiQuickAction::Comment,
        AiQuickAction::Optimize,
        AiQuickAction::Test,
        AiQuickAction::Doc,
    ]
}

/// Whether `t` (trimmed) starts a or ends a fenced code block.
pub open spec fn is_fence(t: Seq<char>) -> bool {
    let s = trim(t);
    s.len() >= 3 && s[0] == '`' && s[1] == '`' && s[2] == '`'
}

/// `a` followed by `b`, with a line break in between when `a` is not empty.
pub open spec fn join_line(a: Seq<char>, b: Seq<char>) -> Seq<char> {
    if a.len() > 0 {
        a.push('\n') + b
    } else {
        b
    }
}

/// State while scanning a reply for code blocks: inside a block?, the
/// current block's text, the blocks collected so far.
pub open spec fn scan_code(ls: Seq<Seq<char>>) -> (bool, Seq<char>, Seq<char>)
    decreases ls.len(),
{
    if ls.len() == 0 {
        (false, Seq::empty(), Seq::empty())
    } else {
        let (in_code, code, result) = scan_code(ls.drop_last());
        let line = ls.last();
        if is_fence(line) {
            if in_code {
                let result2 = if code.len() > 0 {
                    join_line(result, code)
                } else {
                    result
                };
                (false, Seq::empty(), result2)
            } else {
                (true, code, result)
            }
        } else if in_code {
            (true, join_line(code, line), result)
        } else {
            (in_code, code, result)
        }
    }
}

/// The closed fenced code blocks of `text`, joined by line breaks, if any.
pub open spec fn code_blocks(text: Seq<char>) -> Option<Seq<char>> {
    let (_, _, result) = scan_code(lines(text));
    if result.len() > 0 {
        Some(result)
    } else {
        None
    }
}

/// Scanning lines without the code-block fence lines: has a line been kept
/// yet, and the kept lines joined by line breaks.
pub open spec fn fence_free_scan(ls: Seq<Seq<char>>) -> (bool, Seq<char>)
    decreases ls.len(),
{
    if ls.len() == 0 {
        (false, Seq::empty())
    } else {
        let (started, out) = fence_free_scan(ls.drop_last());
        let line = ls.last();
        if is_fence(line) {
            (started, out)
        } else if started {
            (true, out.push('\n') + line)
        } else {
            (true, line)
        }
    }
}

/// `text` as plain text: its lines but the code-block fence lines, joined by
/// line breaks.
pub open spec fn without_fences(text: Seq<char>) -> Seq<char> {
    fence_free_scan(lines(text)).1
}

/// The content of the last assistant message among `ms`.
pub open spec fn last_assistant(ms: Seq<AiMessage>) -> Option<Seq<char>>
    decreases ms.len(),
{
    if ms.len() == 0 {
        None
    } else if ms.last().role == AiRole::Assistant {
        Some(ms.last().content@)
    } else {
        last_assistant(ms.drop_last())
    }
}

/// Messages other than system messages, in order.
pub open spec fn conversation(ms: Seq<AiMessage>) -> Seq<(AiRole, Seq<char>)>
    decreases ms.len(),
{
    if ms.len() == 0 {
        Seq::empty()
    } else {
        let rest = conversation(ms.drop_last());
        if ms.last().role != AiRole::System {
            rest.push((ms.last().role, ms.last().content@))
        } else {
            rest
        }
    }
}

/// Messages as `(role, text)`.
pub open spec fn message_views(ms: Seq<AiMessage>) -> Seq<(AiRole, Seq<char>)> {
    ms.map_values(|m: AiMessage| (m.role, m.content@))
}

/// What a quick action leads to: an answer without asking the model, or a
/// prompt to send.
#[derive(Debug)]
pub enum QuickActionStep {
    Answered(String),
    Request(String),
}

/// State of the AI assistant panel.
#[derive(Debug)]
pub struct AiPanel {
    pub visible: bool,
    pub messages: Vec<AiMessage>,
    pub input: String,
    pub is_generating: bool,
    pub selected_action: Option<AiQuickAction>,
    pub hover_action: Option<AiQuickAction>,
    pub hover_apply_button: bool,
    /// Rows of quick-action buttons.
    pub action_rows: usize,
    /// The reply being received.
    pub pending_response: String,
}

fn message(role: AiRole, content: &str) -> (r: AiMessage)
    ensures
        r.role == role,
        r.content@ == content@,
{
    AiMessage { role, content: to_string(content) }
}

impl AiPanel {
    /// A hidden panel whose history holds the greeting.
    pub fn new() -> (r: Self)
        ensures
            !r.visible,
            message_views(r.messages@) == seq![(AiRole::System, greeting())],
            r.input@.len() == 0,
            !r.is_generating,
            r.selected_action is None,
            r.hover_action is None,
            !r.hover_apply_button,
            r.action_rows == 2,
            r.pending_response@.len() == 0,
    {
        let mut messages = Vec::new();
        messages.push(
            message(
                AiRole::System,
                "你好！我是 AI 助手，可以帮助你解释代码、重构、修复问题、生成测试等。你可以直接输入问题，或选中代码后使用快捷操作。",
            ),
        );
        let r = AiPanel {
            visible: false,
            messages,
            input: String::new(),
            is_generating: false,
            selected_action: None,
            hover_action: None,
            hover_apply_button: false,
            action_rows: 2,
            pending_response: String::new(),
        };
        assert(message_views(r.messages@) =~= seq![(AiRole::System, greeting())]);
        r
    }

    /// Appends a message from the user.
    pub fn add_user_message(&mut self, content: String)
        ensures
            *final(self) == (AiPanel { messages: final(self).messages, ..*old(self) }),
            final(self).messages@ == old(self).messages@.push(
                AiMessage { role: AiRole::User, content },
            ),
            final(self).input == old(self).input,
            final(self).is_generating == old(self).is_generating,
    {
        self.messages.push(AiMessage { role: AiRole::User, content });
    }

    /// Appends a message from the assistant.
    pub fn add_assistant_message(&mut self, content: String)
        ensures
            *final(self) == (AiPanel { messages: final(self).messages, ..*old(self) }),
            final(self).messages@ == old(self).messages@.push(
                AiMessage { role: AiRole::Assistant, content },
            ),
            final(self).input == old(self).input,
            final(self).is_generating == old(self).is_generating,
    {
        self.messages.push(AiMessage { role: AiRole::Assistant, content });
    }

    /// All quick actions, in button order.
    pub fn quick_actions() -> (r: Vec<AiQuickAction>)
        ensures
            r@ == all_actions(),
    {
        let mut r = Vec::new();
        r.push(AiQuickAction::Explain);
        r.push(AiQuickAction::Refactor);
        r.push(AiQuickAction::Fix);
        r.push(AiQuickAction::Complete);
        r.push(AiQuickAction::Comment);
        r.push(AiQuickAction::Optimize);
        r.push(AiQuickAction::Test);
        r.push(AiQuickAction::Doc);
        assert(r@ =~= all_actions());
        r
    }

    /// Sends the input: it becomes a user message and is cleared, and the
    /// conversation (without system messages) is returned for the model.
    /// Empty input is refused.
    pub fn send_message(&mut self) -> (r: Result<Vec<AiMessage>, String>)
        ensures
            *final(self) == (AiPanel { messages: final(self).messages, input: final(self).input, is_generating: final(self).is_generating, pending_response: final(self).pending_response, ..*old(self) }),
            old(self).input@.len() == 0 ==> *final(self) == *old(self),
            old(self).input@.len() == 0 ==> (r matches Err(e) && e@ == "输入为空"@)
                && final(self).messages@ == old(self).messages@ && final(self).input@ == old(
                self).input@ && final(self).is_generating == old(self).is_generating,
            old(self).input@.len() > 0 ==> {
                &&& message_views(final(self).messages@) == message_views(old(self).messages@).push(
                    (AiRole::User, old(self).input@),
                )
                &&& final(self).input@.len() == 0
                &&& final(self).is_generating
                &&& final(self).pending_response@.len() == 0
                &&& r matches Ok(ms) && message_views(ms@) == conversation(final(self).messages@)
            },
    {
        if self.input.as_str().is_empty() {
            return Err(to_string("输入为空"));
        }
        let ghost before = self.messages@;
        let user_input = to_string(self.input.as_str());
        self.add_user_message(user_input);
        assert(message_views(self.messages@) =~= message_views(before).push(
            (AiRole::User, old(self).input@),
        ));
        self.input.clear();
        self.is_generating = true;
        self.pending_response.clear();
        let mut out: Vec<AiMessage> = Vec::new();
        let mut i: usize = 0;
        while i < self.messages.len()
            invariant
                i <= self.messages@.len(),
                message_views(out@) == conversation(self.messages@.take(i as int)),
            decreases self.messages@.len() - i,
        {
            assert(self.messages@.take(i + 1).drop_last() =~= self.messages@.take(i as int));
            assert(self.messages@.take(i + 1).last() == self.messages@[i as int]);
            if self.messages[i].role != AiRole::System {
                let ghost o = out@;
                out.push(message(self.messages[i].role, self.messages[i].content.as_str()));
                assert(message_views(out@) =~= message_views(o).push(
                    (self.messages@[i as int].role, self.messages@[i as int].content@),
                ));
            }
            i = i + 1;
        }
        assert(self.messages@.take(self.messages@.len() as int) =~= self.messages@);
        Ok(out)
    }

    /// Records the model's reply (or the failure, as an assistant message
    /// `请求失败: <error>`) and returns it.
    pub fn receive_response(&mut self, reply: Result<String, String>) -> (r: Result<String, String>)
        ensures
            *final(self) == (AiPanel { messages: final(self).messages, is_generating: false, ..*old(self) }),
            !final(self).is_generating,
            final(self).input == old(self).input,
            reply matches Ok(t) ==> (r matches Ok(u) && u@ == t@) && message_views(
                final(self).messages@,
            ) == message_views(old(self).messages@).push((AiRole::Assistant, t@)),
            reply matches Err(e) ==> (r matches Err(u) && u@ == "请求失败: "@ + e@) && message_views(
                final(self).messages@,
            ) == message_views(old(self).messages@).push((AiRole::Assistant, "请求失败: "@ + e@)),
    {
        let ghost before = self.messages@;
        match reply {
            Ok(response) => {
                self.messages.push(message(AiRole::Assistant, response.as_str()));
                self.is_generating = false;
                assert(message_views(self.messages@) =~= message_views(before).push(
                    (AiRole::Assistant, response@),
                ));
                Ok(response)
            },
            Err(e) => {
                self.is_generating = false;
                let mut msg = to_string("请求失败: ");
                push_str(&mut msg, e.as_str());
                self.messages.push(message(AiRole::Assistant, msg.as_str()));
                assert(message_views(self.messages@) =~= message_views(before).push(
                    (AiRole::Assistant, msg@),
                ));
                Err(msg)
            },
        }
    }

    /// Runs a quick action on `code`. Blank code is answered with a hint
    /// (recorded as an assistant message) without asking the model;
    /// otherwise `[<label>]\n<code>` is recorded as the user's message and
    /// the prompt to send is returned.
    pub fn send_quick_action(&mut self, action: AiQuickAction, code: &str) -> (r: QuickActionStep)
        ensures
            *final(self) == (AiPanel { messages: final(self).messages, is_generating: final(self).is_generating, ..*old(self) }),
            trim(code@).len() == 0 ==> {
                let hint = "请先打开文件或输入代码，再使用 AI 快捷操作。"@;
                &&& r matches QuickActionStep::Answered(m) && m@ == hint
                &&& message_views(final(self).messages@) == message_views(old(self).messages@).push(
                    (AiRole::Assistant, hint),
                )
                &&& final(self).is_generating == old(self).is_generating
            },
            trim(code@).len() > 0 ==> {
                &&& r matches QuickActionStep::Request(p) && p@ == prompt_prefix(action) + code@
                    + "\n```"@
                &&& message_views(final(self).messages@) == message_views(old(self).messages@).push(
                    (AiRole::User, "["@ + action_label(action) + "]\n"@ + code@),
                )
                &&& final(self).is_generating
            },
            final(self).input == old(self).input,
    {
        let cs = chars_of(code);
        let (a, b) = trim_range(&cs, 0, cs.len());
        assert(cs@.subrange(0, cs@.len() as int) =~= cs@);
        let ghost before = self.messages@;
        if a == b {
            let msg = to_string("请先打开文件或输入代码，再使用 AI 快捷操作。");
            self.messages.push(message(AiRole::Assistant, msg.as_str()));
            assert(message_views(self.messages@) =~= message_views(before).push(
                (AiRole::Assistant, msg@),
            ));
            return QuickActionStep::Answered(msg);
        }
        let prompt = action.build_prompt(code);
        let mut shown = to_string("[");
        push_str(&mut shown, action.label());
        push_str(&mut shown, "]\n");
        push_str(&mut shown, code);
        self.messages.push(message(AiRole::User, shown.as_str()));
        assert(message_views(self.messages@) =~= message_views(before).push(
            (AiRole::User, shown@),
        ));
        self.is_generating = true;
        QuickActionStep::Request(prompt)
    }

    /// Types `ch` into the input.
    pub fn input_char(&mut self, ch: char)
        ensures
            *final(self) == (AiPanel { input: final(self).input, ..*old(self) }),
            final(self).input@ == old(self).input@.push(ch),
            final(self).messages@ == old(self).messages@,
    {
        self.input.push(ch);
    }

    /// Removes the last character of the input.
    pub fn backspace(&mut self)
        ensures
            *final(self) == (AiPanel { input: final(self).input, ..*old(self) }),
            old(self).input@.len() > 0 ==> final(self).input@ == old(self).input@.drop_last(),
            old(self).input@.len() == 0 ==> final(self).input@ == old(self).input@,
            final(self).messages@ == old(self).messages@,
    {
        let _ = self.input.pop();
    }

    /// Empties the input.
    pub fn clear_input(&mut self)
        ensures
            *final(self) == (AiPanel { input: final(self).input, ..*old(self) }),
            final(self).input@.len() == 0,
            final(self).messages@ == old(self).messages@,
    {
        self.input.clear();
    }

    /// Drops the conversation; only a greeting remains.
    pub fn clear_history(&mut self)
        ensures
            *final(self) == (AiPanel { messages: final(self).messages, ..*old(self) }),
            message_views(final(self).messages@) == seq![(AiRole::System, short_greeting())],
            final(self).input == old(self).input,
    {
        self.messages = Vec::new();
        self.messages.push(
            message(AiRole::System, "你好！我是 AI 助手，可以帮助你解释代码、重构、修复问题、生成测试等。"),
        );
        assert(message_views(self.messages@) =~= seq![(AiRole::System, short_greeting())]);
    }

    /// The code blocks of the last assistant message.
    pub fn extract_last_code_block(&self) -> (r: Option<String>)
        ensures
            match last_assistant(self.messages@) {
                None => r is None,
                Some(t) => match code_blocks(t) {
                    None => r is None,
                    Some(c) => r matches Some(s) && s@ == c,
                },
            },
    {
        let mut i = self.messages.len();
        assert(self.messages@.take(i as int) =~= self.messages@);
        while i > 0
            invariant
                i <= self.messages@.len(),
                last_assistant(self.messages@) == last_assistant(self.messages@.take(i as int)),
            decreases i,
        {
            assert(self.messages@.take(i - 1) =~= self.messages@.take(i as int).drop_last());
            if self.messages[i - 1].role == AiRole::Assistant {
                return extract_code_blocks(self.messages[i - 1].content.as_str());
            }
            i = i - 1;
        }
        None
    }

    /// The text of the last assistant message as plain text, without its
    /// code-block fence lines.
    pub fn last_assistant_text(&self) -> (r: Option<String>)
        ensures
            match last_assistant(self.messages@) {
                None => r is None,
                Some(t) => r matches Some(s) && s@ == without_fences(t),
            },
    {
        let mut i = self.messages.len();
        assert(self.messages@.take(i as int) =~= self.messages@);
        while i > 0
            invariant
                i <= self.messages@.len(),
                last_assistant(self.messages@) == last_assistant(self.messages@.take(i as int)),
            decreases i,
        {
            assert(self.messages@.take(i - 1) =~= self.messages@.take(i as int).drop_last());
            if self.messages[i - 1].role == AiRole::Assistant {
                return Some(strip_fence_lines(self.messages[i - 1].content.as_str()));
            }
            i = i - 1;
        }
        None
    }
}

/// Whether the line `cs[a..b]` is a code-block fence.
fn is_fence_line(cs: &[char], a: usize, b: usize) -> (r: bool)
    requires
        a <= b <= cs@.len(),
    ensures
        r == is_fence(cs@.subrange(a as int, b as int)),
{
    let (x, y) = trim_range(cs, a, b);
    let ghost t = trim(cs@.subrange(a as int, b as int));
    assert(t == cs@.subrange(x as int, y as int));
    let fence = y - x >= 3 && cs[x] == '`' && cs[x + 1] == '`' && cs[x + 2] == '`';
    assert(fence == is_fence(cs@.subrange(a as int, b as int))) by {
        if y - x >= 3 {
            assert(t[0] == cs@[x as int]);
            assert(t[1] == cs@[x + 1]);
            assert(t[2] == cs@[x + 2]);
        }
    }
    fence
}

/// `text` without its code-block fence lines.
fn strip_fence_lines(text: &str) -> (r: String)
    ensures
        r@ == without_fences(text@),
{
    let cs = chars_of(text);
    let ranges = line_ranges(&cs);
    let ghost ls = lines(cs@);
    let mut started = false;
    let mut out = String::new();
    let mut i: usize = 0;
    while i < ranges.len()
        invariant
            i <= ranges@.len() == ls.len(),
            ls == lines(text@),
            forall|k: int|
                0 <= k < ranges@.len() ==> {
                    &&& (#[trigger] ranges@[k]).0 <= ranges@[k].1 <= cs@.len()
                    &&& cs@.subrange(ranges@[k].0 as int, ranges@[k].1 as int) == ls[k]
                },
            fence_free_scan(ls.take(i as int)) == (started, out@),
            !started ==> out@.len() == 0,
        decreases ranges@.len() - i,
    {
        let (a, b) = ranges[i];
        assert(ls.take(i + 1).drop_last() =~= ls.take(i as int));
        assert(ls.take(i + 1).last() == ls[i as int]);
        assert(cs@.subrange(a as int, b as int) == ls[i as int]);
        let ghost prev = out@;
        if !is_fence_line(&cs, a, b) {
            if started {
                out.push('\n');
            }
            let ghost start = out@;
            let mut j = a;
            while j < b
                invariant
                    a <= j <= b <= cs@.len(),
                    out@ == start + cs@.subrange(a as int, j as int),
                decreases b - j,
            {
                out.push(cs[j]);
                j = j + 1;
                assert(cs@.subrange(a as int, j as int) =~= cs@.subrange(a as int, j - 1).push(
                    cs@[j - 1],
                ));
            }
            assert(out@ == (if started {
                prev.push('\n') + ls[i as int]
            } else {
                ls[i as int]
            }));
            started = true;
        }
        i = i + 1;
    }
    assert(ls.take(ranges@.len() as int) =~= ls);
    out
}

/// Appends `src[a..b]` to `dst`, after a line break when `dst` is not empty.
fn push_joined(dst: &mut String, src: &[char], a: usize, b: usize)
    requires
        a <= b <= src@.len(),
    ensures
        final(dst)@ == join_line(old(dst)@, src@.subrange(a as int, b as int)),
{
    let ghost start = if dst@.len() > 0 {
        dst@.push('\n')
    } else {
        dst@
    };
    if dst.as_str().is_empty() {
    } else {
        dst.push('\n');
    }
    let mut j = a;
    while j < b
        invariant
            a <= j <= b <= src@.len(),
            dst@ == start + src@.subrange(a as int, j as int),
        decreases b - j,
    {
        dst.push(src[j]);
        j = j + 1;
        assert(src@.subrange(a as int, j as int) =~= src@.subrange(a as int, j - 1).push(
            src@[j - 1],
        ));
    }
}

/// Appends `src` to `dst`, after a line break when `dst` is not empty.
fn push_joined_str(dst: &mut String, src: &String)
    ensures
        final(dst)@ == join_line(old(dst)@, src@),
{
    let cs = chars_of(src.as_str());
    push_joined(dst, &cs, 0, cs.len());
    assert(cs@.subrange(0, cs@.len() as int) =~= cs@);
}

/// The fenced code blocks of `text` (the lines between lines that start,
/// after trimming, with three backticks), joined by line breaks.
pub fn extract_code_blocks(text: &str) -> (r: Option<String>)
    ensures
        match code_blocks(text@) {
            None => r is None,
            Some(c) => r matches Some(s) && s@ == c,
        },
{
    let cs = chars_of(text);
    let ranges = line_ranges(&cs);
    let ghost ls = lines(cs@);
    let mut in_code = false;
    let mut code = String::new();
    let mut result = String::new();
    let mut i: usize = 0;
    while i < ranges.len()
        invariant
            i <= ranges@.len() == ls.len(),
            ls == lines(text@),
            forall|k: int|
                0 <= k < ranges@.len() ==> {
                    &&& (#[trigger] ranges@[k]).0 <= ranges@[k].1 <= cs@.len()
                    &&& cs@.subrange(ranges@[k].0 as int, ranges@[k].1 as int) == ls[k]
                },
            scan_code(ls.take(i as int)) == (in_code, code@, result@),
        decreases ranges@.len() - i,
    {
        let (a, b) = ranges[i];
        let (x, y) = trim_range(&cs, a, b);
        assert(ls.take(i + 1).drop_last() =~= ls.take(i as int));
        assert(ls.take(i + 1).last() == ls[i as int]);
        let ghost t = trim(ls[i as int]);
        assert(t == cs@.subrange(x as int, y as int));
        let fence = y - x >= 3 && cs[x] == '`' && cs[x + 1] == '`' && cs[x + 2] == '`';
        assert(fence == is_fence(ls[i as int])) by {
            if y - x >= 3 {
                assert(t[0] == cs@[x as int]);
                assert(t[1] == cs@[x + 1]);
                assert(t[2] == cs@[x + 2]);
            }
        }
        if fence {
            if in_code {
                if !code.as_str().is_empty() {
                    push_joined_str(&mut result, &code);
                }
                code.clear();
                in_code = false;
            } else {
                in_code = true;
            }
        } else if in_code {
            push_joined(&mut code, &cs, a, b);
        }
        i = i + 1;
    }
    assert(ls.take(ranges@.len() as int) =~= ls);
    if result.as_str().is_empty() {
        None
    } else {
        Some(result)
    }
}

/// After a reply has been recorded, it is the last assistant message: the
/// message `last_assistant_text` reads and the code blocks are taken from.
pub proof fn lemma_reply_is_last_assistant(before: Seq<AiMessage>, after: Seq<AiMessage>, reply: Seq<char>)
    requires
        message_views(after) == message_views(before).push((AiRole::Assistant, reply)),
    ensures
        last_assistant(after) == Some(reply),
{
    let n = after.len() - 1;
    assert(after.len() == message_views(after).len());
    assert(message_views(after)[n] == (AiRole::Assistant, reply));
}

/// A cleared history has no assistant message, so no code to apply.
pub proof fn lemma_cleared_history_has_no_reply(ms: Seq<AiMessage>)
    requires
        message_views(ms) == seq![(AiRole::System, short_greeting())],
    ensures
        last_assistant(ms) == None::<Seq<char>>,
{
    assert(ms.len() == message_views(ms).len());
    assert(message_views(ms)[0] == (AiRole::System, short_greeting()));
    assert(ms.last().role == AiRole::System);
    assert(ms.drop_last().len() == 0);
    assert(last_assistant(ms.drop_last()) == None::<Seq<char>>);
}

/// Each quick action has its own non-empty prompt prefix: two different
/// actions never send the same instruction.
pub proof fn lemma_prompt_prefixes_distinct(a: AiQuickAction, b: AiQuickAction)
    requires
        a != b,
    ensures
        prompt_prefix(a).len() > 0,
        prompt_prefix(a) != prompt_prefix(b),
{
    reveal_strlit("请解释以下代码的功能和工作原理，用中文回答：\n\n```\n");
    reveal_strlit("请重构以下代码，提高可读性和可维护性，保持功能不变，用中文简要说明修改：\n\n```\n");
    reveal_strlit("以下代码可能有问题，请分析并修复，用中文说明问题：\n\n```\n");
    reveal_strlit("请补全以下代码（继续编写后续逻辑）：\n\n```\n");
    reveal_strlit("请为以下代码添加清晰的中文注释：\n\n```\n");
    reveal_strlit("请优化以下代码的性能，用中文说明优化点：\n\n```\n");
    reveal_strlit("请为以下代码生成单元测试（使用适当的测试框架），用中文说明：\n\n```\n");
    reveal_strlit("请为以下代码生成文档说明（函数文档、参数说明等），用中文：\n\n```\n");
    let pa = prompt_prefix(a);
    let pb = prompt_prefix(b);
    assert(pa[1] != pb[1] || pa[6] != pb[6] || pa[8] != pb[8]);
}

/// Lines joined by line breaks.
pub open spec fn joined(ls: Seq<Seq<char>>) -> Seq<char>
    decreases ls.len(),
{
    if ls.len() == 0 {
        Seq::empty()
    } else if ls.len() == 1 {
        ls[0]
    } else {
        joined(ls.drop_last()).push('\n') + ls.last()
    }
}

proof fn lemma_joined_len(ls: Seq<Seq<char>>)
    requires
        ls.len() > 0,
    ensures
        joined(ls).len() >= ls[0].len(),
    decreases ls.len(),
{
    if ls.len() > 1 {
        lemma_joined_len(ls.drop_last());
    }
}

proof fn lemma_scan_block_after(before: Seq<Seq<char>>, f: Seq<char>, body: Seq<Seq<char>>, k: int)
    requires
        scan_code(before) == (false, Seq::<char>::empty(), Seq::<char>::empty()),
        is_fence(f),
        0 <= k <= body.len(),
        forall|i: int| 0 <= i < body.len() ==> !is_fence(#[trigger] body[i]),
        body.len() > 0 ==> body[0].len() > 0,
    ensures
        scan_code(before + seq![f] + body.take(k)) == (true, joined(body.take(k)), Seq::<char>::empty()),
    decreases k,
{
    if k == 0 {
        let ls = before + seq![f] + body.take(0);
        assert(ls.drop_last() =~= before);
        assert(ls.last() == f);
        assert(body.take(0) =~= Seq::<Seq<char>>::empty());
    } else {
        lemma_scan_block_after(before, f, body, k - 1);
        let ls = before + seq![f] + body.take(k);
        let prev = before + seq![f] + body.take(k - 1);
        assert(ls.drop_last() =~= prev);
        assert(ls.last() == body[k - 1]);
        assert(!is_fence(body[k - 1]));
        let jp = joined(body.take(k - 1));
        assert(scan_code(prev) == (true, jp, Seq::<char>::empty()));
        assert(scan_code(ls) == (true, join_line(jp, body[k - 1]), Seq::<char>::empty()));
        let tk = body.take(k);
        assert(tk.drop_last() =~= body.take(k - 1));
        assert(tk.last() == body[k - 1]);
        if k > 1 {
            lemma_joined_len(body.take(k - 1));
            assert(jp.len() > 0);
            assert(joined(tk) == joined(tk.drop_last()).push('\n') + tk.last());
        } else {
            assert(body.take(0) =~= Seq::<Seq<char>>::empty());
            assert(jp.len() == 0);
            assert(tk.len() == 1);
            assert(joined(tk) == tk[0]);
        }
    }
}

proof fn lemma_scan_outside(ls: Seq<Seq<char>>)
    requires
        forall|i: int| 0 <= i < ls.len() ==> !is_fence(#[trigger] ls[i]),
    ensures
        scan_code(ls) == (false, Seq::<char>::empty(), Seq::<char>::empty()),
    decreases ls.len(),
{
    if ls.len() > 0 {
        lemma_scan_outside(ls.drop_last());
        assert(!is_fence(ls[ls.len() - 1]));
    }
}

/// Text without fence lines holds no code block.
pub proof fn lemma_no_fence_no_code(text: Seq<char>)
    requires
        forall|i: int| 0 <= i < lines(text).len() ==> !is_fence(#[trigger] lines(text)[i]),
    ensures
        code_blocks(text) is None,
{
    lemma_scan_outside(lines(text));
}

/// A fenced code block comes out exactly as its lines stand, untrimmed: for
/// a text made of lines that are not fences, an opening fence, lines that
/// are not fences (the first one not empty) and a closing fence, the code is
/// the lines between the fences joined by line breaks.
pub proof fn lemma_code_block_keeps_lines(
    text: Seq<char>,
    before: Seq<Seq<char>>,
    open: Seq<char>,
    body: Seq<Seq<char>>,
    close: Seq<char>,
)
    requires
        lines(text) == before + seq![open] + body + seq![close],
        forall|i: int| 0 <= i < before.len() ==> !is_fence(#[trigger] before[i]),
        is_fence(open),
        is_fence(close),
        body.len() > 0,
        body[0].len() > 0,
        forall|i: int| 0 <= i < body.len() ==> !is_fence(#[trigger] body[i]),
    ensures
        code_blocks(text) == Some(joined(body)),
{
    lemma_scan_outside(before);
    lemma_scan_block_after(before, open, body, body.len() as int);
    lemma_joined_len(body);
    let ls = before + seq![open] + body + seq![close];
    assert(body.take(body.len() as int) =~= body);
    assert(ls.drop_last() =~= before + seq![open] + body.take(body.len() as int));
    assert(ls.last() == close);
    let j = joined(body);
    assert(scan_code(ls.drop_last()) == (true, j, Seq::<char>::empty()));
    assert(join_line(Seq::<char>::empty(), j) == j);
    assert(scan_code(ls) == (false, Seq::<char>::empty(), j));
}

} // verus!
