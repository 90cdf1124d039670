//! The editor window's documents: the active document lives in the editor
//! state, the others wait in their tabs, and switching, opening and closing
//! tabs move documents between the two without losing any.
use vstd::prelude::*;
use crate::editor::EditorState;
use crate::layout::{ActivityBarView, SidebarContent};
use crate::tabs::{next_index, prev_index, lemma_next_then_prev, lemma_prev_then_next, TabList};
use crate::text::{decimal, push_decimal, push_str, to_string};

verus! {

/// What a tab keeps of its document while another tab is active: the text
/// of its buffer, its file, cursor, selection, whether it has unsaved
/// changes, and the version of its text.
pub struct Document {
    pub text: String,
    pub file_path: Option<String>,
    pub cursor_line: usize,
    pub cursor_col: usize,
    pub selection_start: Option<(usize, usize)>,
    pub selection_end: Option<(usize, usize)>,
    pub is_dirty: bool,
    pub buffer_version: u64,
}

/// The characters of an optional string.
pub open spec fn opt_view(o: Option<String>) -> Option<Seq<char>> {
    match o {
        Some(s) => Some(s@),
        None => None,
    }
}

impl View for Document {
    type V = (Seq<char>, Option<Seq<char>>, (usize, usize), Option<(usize, usize)>, Option<(usize, usize)>, bool, u64);

    open spec fn view(&self) -> Self::V {
        (
            self.text@,
            opt_view(self.file_path),
            (self.cursor_line, self.cursor_col),
            self.selection_start,
            self.selection_end,
            self.is_dirty,
            self.buffer_version,
        )
    }
}

/// The document of a fresh tab: empty, untitled, cursor at the start,
/// nothing selected, no changes.
pub open spec fn empty_doc() -> (Seq<char>, Option<Seq<char>>, (usize, usize), Option<(usize, usize)>, Option<(usize, usize)>, bool, u64) {
    (Seq::empty(), None, (0, 0), None, None, false, 0)
}

impl Document {
    /// A fresh, empty, untitled document.
    pub fn new() -> (r: Self)
        ensures
            r@ == empty_doc(),
    {
        Document {
            text: String::new(),
            file_path: None,
            cursor_line: 0,
            cursor_col: 0,
            selection_start: None,
            selection_end: None,
            is_dirty: false,
            buffer_version: 0,
        }
    }

    /// A document just read from `file_path`: its text, the cursor at the
    /// start, nothing selected, no changes, text version 1.
    pub fn opened(text: String, file_path: Option<String>) -> (r: Self)
        ensures
            r@ == (text@, opt_view(file_path), (0usize, 0usize), None::<(usize, usize)>, None::<(usize, usize)>, false, 1u64),
    {
        Document {
            text,
            file_path,
            cursor_line: 0,
            cursor_col: 0,
            selection_start: None,
            selection_end: None,
            is_dirty: false,
            buffer_version: 1,
        }
    }
}

/// The editor window's documents and the views around them.
pub struct Workspace {
    /// Editing state of the active document (cursor, selection, changes,
    /// find panel, status line).
    pub editor: EditorState,
    /// Text of the active document.
    pub text: String,
    /// File of the active document.
    pub file_path: Option<String>,
    /// Every tab's document; the active tab's slot is out of date while
    /// its document lives in the fields above.
    pub tabs: TabList<Document>,
    pub activity_view: ActivityBarView,
    pub sidebar_content: SidebarContent,
}

impl Workspace {
    /// There is at least one tab, and one of them is active.
    pub open spec fn wf(&self) -> bool {
        self.tabs.wf()
    }

    /// The active document as it stands.
    pub open spec fn live(&self) -> (Seq<char>, Option<Seq<char>>, (usize, usize), Option<(usize, usize)>, Option<(usize, usize)>, bool, u64) {
        (
            self.text@,
            opt_view(self.file_path),
            (self.editor.cursor_line, self.editor.cursor_col),
            self.editor.selection_start,
            self.editor.selection_end,
            self.editor.is_dirty,
            self.editor.buffer_version,
        )
    }

    /// Every tab's document, in tab order, the active one as it stands.
    pub open spec fn documents(&self) -> Seq<(Seq<char>, Option<Seq<char>>, (usize, usize), Option<(usize, usize)>, Option<(usize, usize)>, bool, u64)> {
        self.tabs@.0.map_values(|d: Document| d@).update(self.tabs@.1, self.live())
    }

    /// Index of the active tab.
    pub open spec fn active(&self) -> int {
        self.tabs@.1
    }

    /// `self` has the same documents as `o`, with tab `a` active, and the
    /// editing state of the documents' panels unchanged.
    pub open spec fn switched_from(&self, o: &Self, a: int) -> bool {
        &&& self.wf()
        &&& self.documents() == o.documents()
        &&& self.active() == a
        &&& self.editor.same_find(&o.editor)
        &&& self.editor.status_message@ == o.editor.status_message@
        &&& self.activity_view == o.activity_view
        &&& self.sidebar_content == o.sidebar_content
    }

    /// A new editor window: one empty, untitled tab, the explorer view with
    /// the file tree in the sidebar, nothing to find, and a ready status line.
    pub fn new() -> (r: Self)
        ensures
            r.wf(),
            r.documents() == seq![empty_doc()],
            r.active() == 0,
            r.activity_view == ActivityBarView::Explorer,
            r.sidebar_content == SidebarContent::FileTree,
            r.editor.status_message@ == "就绪"@,
            !r.editor.is_selecting,
            !r.editor.find_visible,
            !r.editor.replace_visible,
            r.editor.find_query@.len() == 0,
            r.editor.find_results@.len() == 0,
    {
        let r = Workspace {
            editor: EditorState::new(),
            text: String::new(),
            file_path: None,
            tabs: TabList::new(Document::new()),
            activity_view: ActivityBarView::Explorer,
            sidebar_content: SidebarContent::FileTree,
        };
        assert(r.documents() =~= seq![empty_doc()]);
        r
    }

    /// Number of tabs.
    pub fn tab_count(&self) -> (r: usize)
        requires
            self.wf(),
        ensures
            r == self.documents().len(),
    {
        self.tabs.tab_count()
    }

    /// Index of the active tab.
    pub fn active_tab(&self) -> (r: usize)
        requires
            self.wf(),
        ensures
            r == self.active(),
    {
        self.tabs.active_index()
    }

    /// Takes the active document out of the editor state, leaving its text
    /// and file empty.
    fn take_live(&mut self) -> (d: Document)
        ensures
            d@ == old(self).live(),
            final(self).editor == old(self).editor,
            final(self).tabs == old(self).tabs,
            final(self).activity_view == old(self).activity_view,
            final(self).sidebar_content == old(self).sidebar_content,
    {
        let mut text = String::new();
        std::mem::swap(&mut text, &mut self.text);
        let mut file_path: Option<String> = None;
        std::mem::swap(&mut file_path, &mut self.file_path);
        Document {
            text,
            file_path,
            cursor_line: self.editor.cursor_line,
            cursor_col: self.editor.cursor_col,
            selection_start: self.editor.selection_start,
            selection_end: self.editor.selection_end,
            is_dirty: self.editor.is_dirty,
            buffer_version: self.editor.buffer_version,
        }
    }

    /// Makes `d` the active document of the editor state.
    fn put_live(&mut self, d: Document)
        ensures
            final(self).live() == d@,
            final(self).editor.same_find(&old(self).editor),
            final(self).editor.is_selecting == old(self).editor.is_selecting,
            final(self).editor.status_message == old(self).editor.status_message,
            final(self).tabs == old(self).tabs,
            final(self).activity_view == old(self).activity_view,
            final(self).sidebar_content == old(self).sidebar_content,
    {
        self.text = d.text;
        self.file_path = d.file_path;
        self.editor.cursor_line = d.cursor_line;
        self.editor.cursor_col = d.cursor_col;
        self.editor.selection_start = d.selection_start;
        self.editor.selection_end = d.selection_end;
        self.editor.is_dirty = d.is_dirty;
        self.editor.buffer_version = d.buffer_version;
    }

    /// Makes tab `index` active when it exists and is not the active one:
    /// the active document goes back to its tab and that tab's document
    /// comes into the editor. Returns whether the active tab changed.
    pub fn switch_tab(&mut self, index: usize) -> (r: bool)
        requires
            old(self).wf(),
        ensures
            r == (index < old(self).documents().len() && index != old(self).active()),
            final(self).switched_from(old(self), if r {
                index as int
            } else {
                old(self).active()
            }),
            r ==> !final(self).editor.is_selecting,
            !r ==> final(self).editor.is_selecting == old(self).editor.is_selecting,
    {
        if index < self.tabs.tab_count() && index != self.tabs.active_index() {
            let ghost before = self.documents();
            let ghost a = self.active();
            let ghost slots = self.tabs@.0;
            let live = self.take_live();
            let _stale = self.tabs.replace_current(live);
            self.tabs.switch_tab(index);
            let d = self.tabs.replace_current(Document::new());
            self.put_live(d);
            self.editor.is_selecting = false;
            assert(self.documents() =~= before);
            true
        } else {
            false
        }
    }

    /// Activates the next tab, wrapping around; nothing happens with one tab.
    pub fn next_tab(&mut self) -> (r: bool)
        requires
            old(self).wf(),
        ensures
            r == (old(self).documents().len() > 1),
            final(self).switched_from(old(self), if r {
                next_index(old(self).active(), old(self).documents().len() as int)
            } else {
                old(self).active()
            }),
    {
        let n = self.tabs.tab_count();
        if n > 1 {
            proof {
                lemma_next_then_prev(self.active(), n as int);
            }
            let a = self.tabs.active_index();
            self.switch_tab((a + 1) % n)
        } else {
            false
        }
    }

    /// Activates the previous tab, wrapping around; nothing happens with one tab.
    pub fn prev_tab(&mut self) -> (r: bool)
        requires
            old(self).wf(),
        ensures
            r == (old(self).documents().len() > 1),
            final(self).switched_from(old(self), if r {
                prev_index(old(self).active(), old(self).documents().len() as int)
            } else {
                old(self).active()
            }),
    {
        let n = self.tabs.tab_count();
        if n > 1 {
            proof {
                lemma_prev_then_next(self.active(), n as int);
            }
            let a = self.tabs.active_index();
            let p = if a == 0 {
                n - 1
            } else {
                a - 1
            };
            self.switch_tab(p)
        } else {
            false
        }
    }

    /// Opens `doc` in a new tab after the others and makes it active; the
    /// document that was active goes back to its tab.
    pub fn open_in_new_tab(&mut self, doc: Document)
        requires
            old(self).wf(),
        ensures
            final(self).wf(),
            final(self).documents() == old(self).documents().push(doc@),
            final(self).active() == old(self).documents().len(),
            !final(self).editor.is_selecting,
            final(self).editor.same_find(&old(self).editor),
            final(self).editor.status_message@ == old(self).editor.status_message@,
            final(self).activity_view == old(self).activity_view,
            final(self).sidebar_content == old(self).sidebar_content,
    {
        let ghost before = self.documents();
        let live = self.take_live();
        let _stale = self.tabs.replace_current(live);
        self.tabs.open_in_new_tab(Document::new());
        self.put_live(doc);
        self.editor.is_selecting = false;
        assert(self.documents() =~= before.push(doc@));
    }

    /// Opens a new, empty tab and makes it active; returns its index.
    pub fn new_tab(&mut self) -> (r: usize)
        requires
            old(self).wf(),
        ensures
            final(self).wf(),
            final(self).documents() == old(self).documents().push(empty_doc()),
            final(self).active() == old(self).documents().len(),
            r == final(self).active(),
            !final(self).editor.is_selecting,
            final(self).editor.same_find(&old(self).editor),
            final(self).editor.status_message@ == old(self).editor.status_message@,
    {
        self.open_in_new_tab(Document::new());
        self.tabs.active_index()
    }

    /// Whether a new document can take over the active tab: it has no
    /// file, no unsaved changes and no text.
    pub open spec fn can_reuse(&self) -> bool {
        self.file_path is None && !self.editor.is_dirty && self.text@.len() == 0
    }

    /// Shows `doc` (a file just read, an image preview, the notice for an
    /// unsupported file, or a new file) with status line `status`. An empty,
    /// untitled, unchanged active tab takes its text and file, with the
    /// cursor at the start, nothing selected and a new text version;
    /// otherwise `doc` opens in a new tab.
    pub fn show_document(&mut self, doc: Document, status: String)
        requires
            old(self).wf(),
            old(self).editor.buffer_version < u64::MAX,
        ensures
            final(self).wf(),
            old(self).can_reuse() ==> {
                &&& final(self).documents() == old(self).documents().update(
                    old(self).active(),
                    (doc.text@, opt_view(doc.file_path), (0usize, 0usize), None::<(usize, usize)>, None::<(usize, usize)>, false, (old(self).editor.buffer_version + 1) as u64),
                )
                &&& final(self).active() == old(self).active()
                &&& final(self).editor.is_selecting == old(self).editor.is_selecting
            },
            !old(self).can_reuse() ==> {
                &&& final(self).documents() == old(self).documents().push(doc@)
                &&& final(self).active() == old(self).documents().len()
                &&& !final(self).editor.is_selecting
            },
            final(self).editor.status_message@ == status@,
            final(self).editor.same_find(&old(self).editor),
            final(self).activity_view == old(self).activity_view,
            final(self).sidebar_content == old(self).sidebar_content,
    {
        if self.file_path.is_none() && !self.editor.is_dirty && self.text.as_str().is_empty() {
            let ghost before = self.documents();
            self.text = doc.text;
            self.file_path = doc.file_path;
            self.editor.reset_editor_state();
            assert(self.documents() =~= before.update(
                self.active(),
                self.live(),
            ));
        } else {
            self.open_in_new_tab(doc);
        }
        self.editor.status_message = status;
    }

    /// A new, empty, untitled file, in the active tab when it can be reused,
    /// otherwise in a new tab; the status line says `新文件`.
    pub fn new_file(&mut self)
        requires
            old(self).wf(),
            old(self).editor.buffer_version < u64::MAX,
        ensures
            final(self).wf(),
            old(self).can_reuse() ==> final(self).documents() == old(self).documents().update(
                old(self).active(),
                (Seq::<char>::empty(), None::<Seq<char>>, (0usize, 0usize), None::<(usize, usize)>, None::<(usize, usize)>, false, (old(self).editor.buffer_version + 1) as u64),
            ) && final(self).active() == old(self).active(),
            !old(self).can_reuse() ==> final(self).documents() == old(self).documents().push(
                empty_doc(),
            ) && final(self).active() == old(self).documents().len(),
            final(self).editor.status_message@ == "新文件"@,
    {
        self.show_document(Document::new(), to_string("新文件"));
    }

    /// Closes the active tab and brings the neighbouring tab's document
    /// into the editor. The last tab is replaced by a fresh, empty one
    /// instead (status `已关闭`); otherwise the status line counts the
    /// remaining tabs. Returns whether tabs remain (always).
    pub fn close_current_tab(&mut self) -> (r: bool)
        requires
            old(self).wf(),
        ensures
            r,
            final(self).wf(),
            !final(self).editor.is_selecting,
            old(self).documents().len() <= 1 ==> {
                &&& final(self).documents() == seq![empty_doc()]
                &&& final(self).active() == 0
                &&& final(self).editor.status_message@ == "已关闭"@
            },
            old(self).documents().len() > 1 ==> {
                let n = old(self).documents().len();
                &&& final(self).documents() == old(self).documents().remove(old(self).active())
                &&& final(self).active() == if old(self).active() >= n - 1 {
                    n - 2
                } else {
                    old(self).active()
                }
                &&& final(self).editor.status_message@ == "已关闭，剩余 "@ + decimal((n - 1) as nat)
                    + " 个文件"@
            },
            final(self).editor.same_find(&old(self).editor),
            final(self).activity_view == old(self).activity_view,
            final(self).sidebar_content == old(self).sidebar_content,
    {
        let ghost before = self.documents();
        let ghost a = self.active();
        let ghost slots = self.tabs@.0;
        if self.tabs.tab_count() <= 1 {
            self.tabs.close_current_tab(Document::new());
            self.put_live(Document::new());
            self.editor.is_selecting = false;
            self.editor.status_message = to_string("已关闭");
            assert(self.documents() =~= seq![empty_doc()]);
            return true;
        }
        self.tabs.close_current_tab(Document::new());
        let d = self.tabs.replace_current(Document::new());
        self.put_live(d);
        self.editor.is_selecting = false;
        let n = self.tabs.tab_count();
        let mut msg = to_string("已关闭，剩余 ");
        push_decimal(&mut msg, n);
        push_str(&mut msg, " 个文件");
        self.editor.status_message = msg;
        assert(self.documents() =~= before.remove(a));
        true
    }
}

/// The active tab's entry among the documents is the document in the
/// editor: the two never drift apart.
pub proof fn lemma_active_document_is_live(w: Workspace)
    requires
        w.wf(),
    ensures
        0 <= w.active() < w.documents().len(),
        w.documents()[w.active()] == w.live(),
{
}

/// Going to the next tab and back to the previous one brings the same
/// document back into the editor, with every tab's document unchanged.
pub proof fn lemma_next_then_prev_restores(w0: Workspace, w1: Workspace, w2: Workspace)
    requires
        w0.wf(),
        w1.switched_from(&w0, if w0.documents().len() > 1 {
            next_index(w0.active(), w0.documents().len() as int)
        } else {
            w0.active()
        }),
        w2.switched_from(&w1, if w1.documents().len() > 1 {
            prev_index(w1.active(), w1.documents().len() as int)
        } else {
            w1.active()
        }),
    ensures
        w2.active() == w0.active(),
        w2.documents() == w0.documents(),
        w2.live() == w0.live(),
{
    let n = w0.documents().len() as int;
    if n > 1 {
        lemma_next_then_prev(w0.active(), n);
    }
    lemma_active_document_is_live(w0);
    lemma_active_document_is_live(w2);
}

} // verus!
