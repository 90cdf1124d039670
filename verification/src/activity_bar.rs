//! The activity bar: the column of view icons on the left of the window.
use vstd::prelude::*;
use crate::layout::{ActivityBarView, view_label};
use crate::text::to_string;

verus! {

/// One icon of the activity bar.
#[derive(Debug)]
pub struct ActivityItem {
    pub view: ActivityBarView,
    pub tooltip: String,
    pub is_active: bool,
}

impl ActivityItem {
    /// An inactive item for `view`, whose tooltip is the view's name.
    pub fn new(view: ActivityBarView) -> (r: Self)
        ensures
            r.view == view,
            r.tooltip@ == view_label(view),
            !r.is_active,
    {
        ActivityItem { view, tooltip: to_string(view.label()), is_active: false }
    }
}

/// The views of the activity bar, top to bottom.
pub open spec fn default_views() -> Seq<ActivityBarView> {
    seq![
        ActivityBarView::Explorer,
        ActivityBarView::SourceControl,
        ActivityBarView::Terminal,
        ActivityBarView::Settings,
        ActivityBarView::AiAssistant,
    ]
}

/// The activity bar.
#[derive(Debug)]
pub struct ActivityBar {
    pub items: Vec<ActivityItem>,
    pub active_index: usize,
    pub hover_index: Option<usize>,
}

impl ActivityBar {
    /// The active index names an item, and no other item is marked active.
    pub open spec fn wf(&self) -> bool {
        &&& self.active_index < self.items@.len()
        &&& forall|i: int|
            0 <= i < self.items@.len() && i != self.active_index ==> !(
            #[trigger] self.items@[i]).is_active
    }

    /// Item `i` is the one marked active, and the only one.
    pub open spec fn only_active(&self, i: int) -> bool {
        forall|j: int| 0 <= j < self.items@.len() ==> (#[trigger] self.items@[j]).is_active == (j
            == i)
    }

    /// The bar with the five views, the first one selected, none marked active.
    pub fn new() -> (r: Self)
        ensures
            r.items@.len() == 5,
            forall|i: int|
                0 <= i < 5 ==> (#[trigger] r.items@[i]).view == default_views()[i]
                    && r.items@[i].tooltip@ == view_label(default_views()[i])
                    && !r.items@[i].is_active,
            r.active_index == 0,
            r.hover_index is None,
            r.wf(),
    {
        let mut items = Vec::new();
        items.push(ActivityItem::new(ActivityBarView::Explorer));
        items.push(ActivityItem::new(ActivityBarView::SourceControl));
        items.push(ActivityItem::new(ActivityBarView::Terminal));
        items.push(ActivityItem::new(ActivityBarView::Settings));
        items.push(ActivityItem::new(ActivityBarView::AiAssistant));
        ActivityBar { active_index: 0, hover_index: None, items }
    }

    /// The view of the selected item.
    pub fn active_view(&self) -> (r: ActivityBarView)
        requires
            self.active_index < self.items@.len(),
        ensures
            r == self.items@[self.active_index as int].view,
    {
        self.items[self.active_index].view
    }

    /// Selects item `index` (when it exists) and marks it as the active one.
    pub fn switch_to(&mut self, index: usize)
        requires
            index < old(self).items@.len() ==> old(self).active_index < old(self).items@.len(),
        ensures
            final(self).hover_index == old(self).hover_index,
            final(self).items@.len() == old(self).items@.len(),
            forall|j: int|
                0 <= j < final(self).items@.len() ==> (#[trigger] final(self).items@[j]).view == old(
                    self).items@[j].view && final(self).items@[j].tooltip@ == old(
                    self).items@[j].tooltip@,
            index >= old(self).items@.len() ==> final(self).active_index == old(self).active_index
                && final(self).items@ == old(self).items@,
            index < old(self).items@.len() ==> {
                &&& final(self).active_index == index
                &&& final(self).items@[index as int].is_active
                &&& final(self).items@[old(self).active_index as int].is_active == (
                old(self).active_index == index)
                &&& forall|j: int|
                    0 <= j < final(self).items@.len() && j != index && j != old(self).active_index
                        ==> (#[trigger] final(self).items@[j]).is_active == old(
                        self).items@[j].is_active
            },
    {
        if index < self.items.len() {
            let a = self.active_index;
            self.items[a].is_active = false;
            self.active_index = index;
            self.items[index].is_active = true;
        }
    }

    /// Selects the first item showing `view`, if there is one.
    pub fn switch_to_view(&mut self, view: ActivityBarView)
        requires
            old(self).active_index < old(self).items@.len(),
        ensures
            final(self).hover_index == old(self).hover_index,
            final(self).items@.len() == old(self).items@.len(),
            (forall|j: int| 0 <= j < old(self).items@.len() ==> (#[trigger] old(self).items@[j]).view
                != view) ==> final(self).active_index == old(self).active_index && final(
                self).items@ == old(self).items@,
            forall|i: int|
                0 <= i < old(self).items@.len() && (#[trigger] old(self).items@[i]).view == view
                    && (forall|j: int| 0 <= j < i ==> old(self).items@[j].view != view) ==> {
                    &&& final(self).active_index == i
                    &&& final(self).items@[i].is_active
                    &&& final(self).items@[old(self).active_index as int].is_active == (old(
                        self).active_index == i)
                    &&& forall|j: int|
                        0 <= j < final(self).items@.len() && j != i && j != old(self).active_index
                            ==> (#[trigger] final(self).items@[j]).is_active == old(
                            self).items@[j].is_active
                },
            forall|j: int|
                0 <= j < final(self).items@.len() ==> (#[trigger] final(self).items@[j]).view == old(
                    self).items@[j].view && final(self).items@[j].tooltip@ == old(
                    self).items@[j].tooltip@,
    {
        let mut i: usize = 0;
        while i < self.items.len()
            invariant
                i <= self.items@.len(),
                self.items@ == old(self).items@,
                self.active_index == old(self).active_index,
                self.hover_index == old(self).hover_index,
                self.active_index < self.items@.len(),
                forall|j: int| 0 <= j < i ==> (#[trigger] self.items@[j]).view != view,
            decreases self.items@.len() - i,
        {
            if self.items[i].view == view {
                self.switch_to(i);
                return;
            }
            i = i + 1;
        }
    }
}

/// Switching to an item leaves exactly that item marked active, and keeps
/// the bar well formed.
pub proof fn lemma_switch_marks_only_target(before: ActivityBar, after: ActivityBar, index: int)
    requires
        before.wf(),
        0 <= index < before.items@.len(),
        after.items@.len() == before.items@.len(),
        after.active_index == index,
        after.items@[index].is_active,
        after.items@[before.active_index as int].is_active == (before.active_index == index),
        forall|j: int|
            0 <= j < after.items@.len() && j != index && j != before.active_index ==> (
            #[trigger] after.items@[j]).is_active == before.items@[j].is_active,
    ensures
        after.only_active(index),
        after.wf(),
{
}

} // verus!
