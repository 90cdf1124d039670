//! File type decisions: the icon shown for a file name, and whether a file
//! is opened as text (by its extension, or by a sample of its bytes).
use vstd::prelude::*;
use crate::text::{chars_of, push_str, to_string};

verus! {

/// Name for what `str::to_lowercase` returns for a string: its Unicode
/// lowercase mapping.
pub uninterp spec fn lowercase(s: Seq<char>) -> Seq<char>;

/// `str::to_lowercase`. Its result is the named `lowercase` of the input;
/// the Unicode mapping itself is not stated here.
#[verifier::external_body]
fn to_lowercase(s: &str) -> (r: String)
    ensures
        r@ == lowercase(s@),
{
    s.to_lowercase()
}

/// `cs` spells `lit`.
fn same(cs: &[char], lit: &str) -> (r: bool)
    ensures
        r == (cs@ == lit@),
{
    let ls = chars_of(lit);
    if cs.len() != ls.len() {
        return false;
    }
    let mut i: usize = 0;
    while i < cs.len()
        invariant
            i <= cs@.len() == ls@.len(),
            ls@ == lit@,
            forall|k: int| 0 <= k < i ==> cs@[k] == ls@[k],
        decreases cs@.len() - i,
    {
        if cs[i] != ls[i] {
            return false;
        }
        i = i + 1;
    }
    assert(cs@ =~= ls@);
    true
}

/// Index of the last `.` in `cs`, if any.
pub open spec fn last_dot(cs: Seq<char>) -> Option<int>
    decreases cs.len(),
{
    if cs.len() == 0 {
        None
    } else if cs.last() == '.' {
        Some(cs.len() - 1)
    } else {
        last_dot(cs.drop_last())
    }
}

/// What follows the last `.` of a file name (the whole name when it has
/// none): the first piece of `rsplit('.')`.
pub open spec fn extension_part(name: Seq<char>) -> Seq<char> {
    match last_dot(name) {
        Some(i) => name.subrange(i + 1, name.len() as int),
        None => name,
    }
}

proof fn lemma_last_dot(cs: Seq<char>, i: int)
    requires
        -1 <= i < cs.len(),
        i >= 0 ==> cs[i] == '.',
        forall|k: int| i < k < cs.len() ==> cs[k] != '.',
    ensures
        last_dot(cs) == (if i >= 0 {
            Some(i)
        } else {
            None::<int>
        }),
    decreases cs.len(),
{
    if cs.len() > 0 && i < cs.len() - 1 {
        assert forall|k: int| i < k < cs.drop_last().len() implies cs.drop_last()[k] != '.' by {
            assert(cs.drop_last()[k] == cs[k]);
        }
        lemma_last_dot(cs.drop_last(), i);
    }
}

/// What follows the last `.` of `name` (all of `name` when it has none).
pub fn file_extension_part(name: &str) -> (r: String)
    ensures
        r@ == extension_part(name@),
{
    let cs = chars_of(name);
    let mut i = cs.len();
    while i > 0 && cs[i - 1] != '.'
        invariant
            i <= cs@.len(),
            forall|k: int| i <= k < cs@.len() ==> cs@[k] != '.',
        decreases i,
    {
        i = i - 1;
    }
    proof {
        lemma_last_dot(cs@, i - 1);
    }
    let mut r = String::new();
    let mut j = i;
    while j < cs.len()
        invariant
            i <= j <= cs@.len(),
            r@ == cs@.subrange(i as int, j as int),
        decreases cs@.len() - j,
    {
        r.push(cs[j]);
        j = j + 1;
        assert(cs@.subrange(i as int, j as int) =~= cs@.subrange(i as int, j - 1).push(cs@[j - 1]));
    }
    assert(i == 0 ==> cs@.subrange(0, cs@.len() as int) =~= cs@);
    r
}

/// The icon for a lowercase extension.
pub open spec fn icon_of(e: Seq<char>) -> Seq<char> {
    if e == "rs"@ {
        "🦀"@
    } else if e == "js"@ {
        "📜"@
    } else if e == "ts"@ {
        "📘"@
    } else if e == "tsx"@ {
        "⚛"@
    } else if e == "jsx"@ {
        "⚛"@
    } else if e == "json"@ {
        "📋"@
    } else if e == "html"@ || e == "htm"@ {
        "🌐"@
    } else if e == "css"@ || e == "scss"@ || e == "sass"@ || e == "less"@ {
        "🎨"@
    } else if e == "md"@ || e == "markdown"@ {
        "📝"@
    } else if e == "py"@ || e == "pyw"@ || e == "pyi"@ {
        "🐍"@
    } else if e == "c"@ || e == "cpp"@ || e == "h"@ || e == "hpp"@ || e == "cc"@ || e == "cxx"@ {
        "🔧"@
    } else if e == "toml"@ {
        "⚙"@
    } else if e == "yaml"@ || e == "yml"@ {
        "⚙"@
    } else if e == "lock"@ {
        "🔒"@
    } else if e == "ps1"@ || e == "sh"@ || e == "bash"@ || e == "zsh"@ {
        "📜"@
    } else if e == "exe"@ || e == "dll"@ {
        "⚙"@
    } else if e == "java"@ || e == "kt"@ {
        "☕"@
    } else if e == "go"@ {
        "🐹"@
    } else if e == "rb"@ {
        "💎"@
    } else if e == "php"@ {
        "🐘"@
    } else if e == "swift"@ {
        "🍎"@
    } else if e == "sql"@ {
        "🗄"@
    } else if e == "lua"@ {
        "🌙"@
    } else if e == "xml"@ {
        "📃"@
    } else if e == "csv"@ {
        "📊"@
    } else if e == "dockerfile"@ {
        "🐳"@
    } else if e == "vue"@ {
        "🌿"@
    } else if e == "png"@ || e == "jpg"@ || e == "jpeg"@ || e == "gif"@ || e == "bmp"@ || e == "webp"@ || e == "svg"@ {
        "🖼"@
    } else {
        "📄"@
    }
}

/// The icon for a lowercase extension.
pub fn icon_for_extension(ext: &str) -> (r: &'static str)
    ensures
        r@ == icon_of(ext@),
{
    let cs = chars_of(ext);
    if same(&cs, "rs") {
        "🦀"
    } else if same(&cs, "js") {
        "📜"
    } else if same(&cs, "ts") {
        "📘"
    } else if same(&cs, "tsx") {
        "⚛"
    } else if same(&cs, "jsx") {
        "⚛"
    } else if same(&cs, "json") {
        "📋"
    } else if same(&cs, "html") || same(&cs, "htm") {
        "🌐"
    } else if same(&cs, "css") || same(&cs, "scss") || same(&cs, "sass") || same(&cs, "less") {
        "🎨"
    } else if same(&cs, "md") || same(&cs, "markdown") {
        "📝"
    } else if same(&cs, "py") || same(&cs, "pyw") || same(&cs, "pyi") {
        "🐍"
    } else if same(&cs, "c") || same(&cs, "cpp") || same(&cs, "h") || same(&cs, "hpp") || same(&cs, "cc") || same(&cs, "cxx") {
        "🔧"
    } else if same(&cs, "toml") {
        "⚙"
    } else if same(&cs, "yaml") || same(&cs, "yml") {
        "⚙"
    } else if same(&cs, "lock") {
        "🔒"
    } else if same(&cs, "ps1") || same(&cs, "sh") || same(&cs, "bash") || same(&cs, "zsh") {
        "📜"
    } else if same(&cs, "exe") || same(&cs, "dll") {
        "⚙"
    } else if same(&cs, "java") || same(&cs, "kt") {
        "☕"
    } else if same(&cs, "go") {
        "🐹"
    } else if same(&cs, "rb") {
        "💎"
    } else if same(&cs, "php") {
        "🐘"
    } else if same(&cs, "swift") {
        "🍎"
    } else if same(&cs, "sql") {
        "🗄"
    } else if same(&cs, "lua") {
        "🌙"
    } else if same(&cs, "xml") {
        "📃"
    } else if same(&cs, "csv") {
        "📊"
    } else if same(&cs, "dockerfile") {
        "🐳"
    } else if same(&cs, "vue") {
        "🌿"
    } else if same(&cs, "png") || same(&cs, "jpg") || same(&cs, "jpeg") || same(&cs, "gif") || same(&cs, "bmp") || same(&cs, "webp") || same(&cs, "svg") {
        "🖼"
    } else {
        "📄"
    }
}

/// The icon shown for a file name: by its extension, compared in lowercase.
pub fn get_file_icon(name: &str) -> (r: &'static str)
    ensures
        r@ == icon_of(lowercase(extension_part(name@))),
{
    let ext = file_extension_part(name);
    let lower = to_lowercase(ext.as_str());
    icon_for_extension(lower.as_str())
}

/// Extensions of files that are always opened as text.
pub open spec fn text_extension(e: Seq<char>) -> bool {
    e == "txt"@
    || e == "rs"@
    || e == "c"@
    || e == "h"@
    || e == "cpp"@
    || e == "hpp"@
    || e == "cc"@
    || e == "cxx"@
    || e == "js"@
    || e == "jsx"@
    || e == "ts"@
    || e == "tsx"@
    || e == "json"@
    || e == "md"@
    || e == "markdown"@
    || e == "py"@
    || e == "pyw"@
    || e == "pyi"@
    || e == "toml"@
    || e == "yaml"@
    || e == "yml"@
    || e == "xml"@
    || e == "html"@
    || e == "htm"@
    || e == "css"@
    || e == "scss"@
    || e == "sass"@
    || e == "less"@
    || e == "java"@
    || e == "kt"@
    || e == "go"@
    || e == "rb"@
    || e == "php"@
    || e == "swift"@
    || e == "sh"@
    || e == "bash"@
    || e == "zsh"@
    || e == "ps1"@
    || e == "bat"@
    || e == "cmd"@
    || e == "sql"@
    || e == "lua"@
    || e == "r"@
    || e == "pl"@
    || e == "pm"@
    || e == "t"@
    || e == "ini"@
    || e == "cfg"@
    || e == "conf"@
    || e == "properties"@
    || e == "log"@
    || e == "csv"@
    || e == "tsv"@
}

/// Whether a lowercase extension is one of the text extensions.
pub fn is_text_extension(ext: &str) -> (r: bool)
    ensures
        r == text_extension(ext@),
{
    let cs = chars_of(ext);
    same(&cs, "txt")
        || same(&cs, "rs")
        || same(&cs, "c")
        || same(&cs, "h")
        || same(&cs, "cpp")
        || same(&cs, "hpp")
        || same(&cs, "cc")
        || same(&cs, "cxx")
        || same(&cs, "js")
        || same(&cs, "jsx")
        || same(&cs, "ts")
        || same(&cs, "tsx")
        || same(&cs, "json")
        || same(&cs, "md")
        || same(&cs, "markdown")
        || same(&cs, "py")
        || same(&cs, "pyw")
        || same(&cs, "pyi")
        || same(&cs, "toml")
        || same(&cs, "yaml")
        || same(&cs, "yml")
        || same(&cs, "xml")
        || same(&cs, "html")
        || same(&cs, "htm")
        || same(&cs, "css")
        || same(&cs, "scss")
        || same(&cs, "sass")
        || same(&cs, "less")
        || same(&cs, "java")
        || same(&cs, "kt")
        || same(&cs, "go")
        || same(&cs, "rb")
        || same(&cs, "php")
        || same(&cs, "swift")
        || same(&cs, "sh")
        || same(&cs, "bash")
        || same(&cs, "zsh")
        || same(&cs, "ps1")
        || same(&cs, "bat")
        || same(&cs, "cmd")
        || same(&cs, "sql")
        || same(&cs, "lua")
        || same(&cs, "r")
        || same(&cs, "pl")
        || same(&cs, "pm")
        || same(&cs, "t")
        || same(&cs, "ini")
        || same(&cs, "cfg")
        || same(&cs, "conf")
        || same(&cs, "properties")
        || same(&cs, "log")
        || same(&cs, "csv")
        || same(&cs, "tsv")
}

/// Whether a file with extension `ext` is opened as text without looking
/// at its content (the extension is compared in lowercase).
pub fn has_text_extension(ext: &str) -> (r: bool)
    ensures
        r == text_extension(lowercase(ext@)),
{
    let lower = to_lowercase(ext);
    is_text_extension(lower.as_str())
}

/// A byte that counts as readable text: ASCII graphic characters and ASCII
/// whitespace.
pub open spec fn printable(b: u8) -> bool {
    (0x21 <= b && b <= 0x7E) || b == 0x20 || b == 0x09 || b == 0x0A || b == 0x0C || b == 0x0D
}

/// How many bytes of `s` are printable.
pub open spec fn printable_count(s: Seq<u8>) -> nat
    decreases s.len(),
{
    if s.len() == 0 {
        0
    } else {
        printable_count(s.drop_last()) + if printable(s.last()) {
            1nat
        } else {
            0nat
        }
    }
}

/// A sample of a file's first bytes looks like text: it is not empty, has
/// no zero byte, and at least nine tenths (rounded down) of its bytes are
/// printable.
pub open spec fn looks_like_text(s: Seq<u8>) -> bool {
    &&& !s.contains(0u8)
    &&& s.len() > 0
    &&& printable_count(s) >= (s.len() * 9) / 10
}

/// Whether the first bytes of a file look like text.
pub fn sample_is_text(sample: &[u8]) -> (r: bool)
    ensures
        r == looks_like_text(sample@),
{
    let n = sample.len();
    let mut count: usize = 0;
    let mut i: usize = 0;
    while i < n
        invariant
            n == sample@.len(),
            i <= n,
            count == printable_count(sample@.take(i as int)),
            count <= i,
            forall|k: int| 0 <= k < i ==> sample@[k] != 0u8,
        decreases n - i,
    {
        let b = sample[i];
        if b == 0 {
            assert(sample@.contains(0u8)) by {
                assert(sample@[i as int] == 0u8);
            }
            return false;
        }
        assert(sample@.take(i + 1).drop_last() =~= sample@.take(i as int));
        if (0x21 <= b && b <= 0x7E) || b == 0x20 || b == 0x09 || b == 0x0A || b == 0x0C || b == 0x0D {
            count = count + 1;
        }
        i = i + 1;
    }
    assert(sample@.take(n as int) =~= sample@);
    assert(!sample@.contains(0u8));
    if n == 0 {
        return false;
    }
    let q = n / 10;
    let rem = n % 10;
    let need = q * 9 + (rem * 9) / 10;
    assert(need == (n * 9) / 10) by (nonlinear_arith)
        requires
            q == n / 10,
            rem == n % 10,
            need == q * 9 + (rem * 9) / 10,
    ;
    count >= need
}

/// The extension shown for a file that cannot be opened: its own, or
/// `unknown`.
pub open spec fn shown_extension(ext: Option<Seq<char>>) -> Seq<char> {
    match ext {
        Some(e) => e,
        None => "unknown"@,
    }
}

/// What is shown for a file that is neither text nor an image: the text
/// put in its tab, and the status message. `ext` is the file's extension
/// (when it has one that is valid UTF-8) and `path` how its path displays.
pub fn unsupported_file_message(ext: Option<&str>, path: &str) -> (r: (String, String))
    ensures
        r.0@ == "不支持的文件格式: ."@ + shown_extension(
            match ext {
                Some(e) => Some(e@),
                None => None,
            },
        ) + "\n文件: "@ + path@,
        r.1@ == "不支持的文件格式: ."@ + shown_extension(
            match ext {
                Some(e) => Some(e@),
                None => None,
            },
        ),
{
    let e = match ext {
        Some(e) => e,
        None => "unknown",
    };
    let mut status = to_string("不支持的文件格式: .");
    push_str(&mut status, e);
    let mut text = to_string(status.as_str());
    push_str(&mut text, "\n文件: ");
    push_str(&mut text, path);
    (text, status)
}

/// What opening a file shows, decided from its kind before anything is read.
pub enum LoadPlan {
    /// An image: the text put in its tab and the status message.
    Image { content: String, status: String },
    /// Neither text nor an image: the text put in its tab and the status message.
    Unsupported { content: String, status: String },
    /// A text file: it is read, and `opened_text_status` says how that went.
    Text,
}

/// How a file is opened: an image gets a preview line, a file that is not
/// text gets the unsupported-format notice (see `unsupported_file_message`),
/// and a text file is read. Whether the current tab is reused or a new one
/// opened is `can_reuse_current_tab`'s decision, the same for all three.
pub fn plan_load(is_image: bool, is_text: bool, ext: Option<&str>, path: &str) -> (r: LoadPlan)
    ensures
        is_image ==> (r matches LoadPlan::Image { content, status } && content@ == "[图片预览] "@
            + path@ && status@ == "已打开图片: "@ + path@),
        !is_image && !is_text ==> (r matches LoadPlan::Unsupported { content, status } && {
            let e = shown_extension(
                match ext {
                    Some(e) => Some(e@),
                    None => None,
                },
            );
            &&& content@ == "不支持的文件格式: ."@ + e + "\n文件: "@ + path@
            &&& status@ == "不支持的文件格式: ."@ + e
        }),
        !is_image && is_text ==> r is Text,
{
    if is_image {
        let mut content = to_string("[图片预览] ");
        push_str(&mut content, path);
        let mut status = to_string("已打开图片: ");
        push_str(&mut status, path);
        LoadPlan::Image { content, status }
    } else if !is_text {
        let (content, status) = unsupported_file_message(ext, path);
        LoadPlan::Unsupported { content, status }
    } else {
        LoadPlan::Text
    }
}

/// The status message after reading a text file: `已打开: <path>`, or the
/// read error.
pub fn opened_text_status(path: &str, read_error: Option<&str>) -> (r: String)
    ensures
        read_error matches Some(e) ==> r@ == "打开文件失败: "@ + e@,
        read_error is None ==> r@ == "已打开: "@ + path@,
{
    match read_error {
        Some(e) => {
            let mut m = to_string("打开文件失败: ");
            push_str(&mut m, e);
            m
        },
        None => {
            let mut m = to_string("已打开: ");
            push_str(&mut m, path);
            m
        },
    }
}

} // verus!
