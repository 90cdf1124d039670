//! The open editor tabs and which one is active.
use vstd::prelude::*;
use vstd::arithmetic::div_mod::{lemma_mod_add_multiples_vanish, lemma_mod_self_0, lemma_small_mod};

verus! {

/// Index of the tab after `a`, wrapping around.
pub open spec fn next_index(a: int, len: int) -> int {
    (a + 1) % len
}

/// Index of the tab before `a`, wrapping around.
pub open spec fn prev_index(a: int, len: int) -> int {
    (a + len - 1) % len
}

/// The tabs and the active index after `next_tab`.
pub open spec fn after_next_tab<T>(v: (Seq<T>, int)) -> (Seq<T>, int) {
    if v.0.len() > 1 {
        (v.0, next_index(v.1, v.0.len() as int))
    } else {
        v
    }
}

/// The tabs and the active index after `prev_tab`.
pub open spec fn after_prev_tab<T>(v: (Seq<T>, int)) -> (Seq<T>, int) {
    if v.0.len() > 1 {
        (v.0, prev_index(v.1, v.0.len() as int))
    } else {
        v
    }
}

/// Active index after removing the tab at `index` (which is not the active one).
pub open spec fn index_after_removal(active: int, index: int) -> int {
    if index < active {
        active - 1
    } else {
        active
    }
}

/// The tabs of the editor window; there is always at least one, and one of
/// them is active.
pub struct TabList<T> {
    tabs: Vec<T>,
    active: usize,
}

impl<T> View for TabList<T> {
    type V = (Seq<T>, int);

    closed spec fn view(&self) -> (Seq<T>, int) {
        (self.tabs@, self.active as int)
    }
}

impl<T> TabList<T> {
    /// There is at least one tab, and the active index names one of them.
    pub open spec fn wf(&self) -> bool {
        0 <= self@.1 < self@.0.len()
    }

    /// A list holding just `first`, which is active.
    pub fn new(first: T) -> (r: Self)
        ensures
            r@.0 == seq![first],
            r@.1 == 0,
            r.wf(),
    {
        let mut tabs = Vec::new();
        tabs.push(first);
        TabList { tabs, active: 0 }
    }

    /// Number of tabs.
    pub fn tab_count(&self) -> (r: usize)
        requires
            self.wf(),
        ensures
            r == self@.0.len(),
            r >= 1,
    {
        self.tabs.len()
    }

    /// Index of the active tab.
    pub fn active_index(&self) -> (r: usize)
        requires
            self.wf(),
        ensures
            r == self@.1,
            r < self@.0.len(),
    {
        self.active
    }

    /// The active tab.
    pub fn current_tab(&self) -> (r: &T)
        requires
            self.wf(),
        ensures
            *r == self@.0[self@.1],
    {
        &self.tabs[self.active]
    }

    /// Puts `t` in place of the active tab and returns what was there.
    pub fn replace_current(&mut self, t: T) -> (r: T)
        requires
            old(self).wf(),
        ensures
            final(self).wf(),
            r == old(self)@.0[old(self)@.1],
            final(self)@.0 == old(self)@.0.update(old(self)@.1, t),
            final(self)@.1 == old(self)@.1,
    {
        let mut t = t;
        let i = self.active;
        let ghost before = self.tabs@;
        self.tabs.set_and_swap(i, &mut t);
        assert(self.tabs@ =~= before.update(i as int, self.tabs@[i as int]));
        t
    }

    /// Makes tab `index` active when it exists and is not already active;
    /// returns whether the active tab changed.
    pub fn switch_tab(&mut self, index: usize) -> (r: bool)
        requires
            old(self).wf(),
        ensures
            final(self).wf(),
            final(self)@.0 == old(self)@.0,
            r == (index < old(self)@.0.len() && index != old(self)@.1),
            final(self)@.1 == if r {
                index as int
            } else {
                old(self)@.1
            },
    {
        if index < self.tabs.len() && index != self.active {
            self.active = index;
            true
        } else {
            false
        }
    }

    /// Activates the next tab, wrapping around; nothing happens with one tab.
    pub fn next_tab(&mut self) -> (r: bool)
        requires
            old(self).wf(),
        ensures
            final(self).wf(),
            final(self)@.0 == old(self)@.0,
            r == (old(self)@.0.len() > 1),
            final(self)@ == after_next_tab(old(self)@),
            final(self)@.1 == if r {
                next_index(old(self)@.1, old(self)@.0.len() as int)
            } else {
                old(self)@.1
            },
    {
        if self.tabs.len() > 1 {
            proof {
                lemma_next_then_prev(self.active as int, self.tabs@.len() as int);
            }
            let next = (self.active + 1) % self.tabs.len();
            self.switch_tab(next)
        } else {
            false
        }
    }

    /// Activates the previous tab, wrapping around; nothing happens with one tab.
    pub fn prev_tab(&mut self) -> (r: bool)
        requires
            old(self).wf(),
        ensures
            final(self).wf(),
            final(self)@.0 == old(self)@.0,
            r == (old(self)@.0.len() > 1),
            final(self)@ == after_prev_tab(old(self)@),
            final(self)@.1 == if r {
                prev_index(old(self)@.1, old(self)@.0.len() as int)
            } else {
                old(self)@.1
            },
    {
        if self.tabs.len() > 1 {
            proof {
                lemma_prev_then_next(self.active as int, self.tabs@.len() as int);
            }
            let prev = if self.active == 0 {
                self.tabs.len() - 1
            } else {
                self.active - 1
            };
            self.switch_tab(prev)
        } else {
            false
        }
    }

    /// Activates tab number `index`, counting from one.
    pub fn goto_tab(&mut self, index: usize) -> (r: bool)
        requires
            old(self).wf(),
        ensures
            final(self).wf(),
            final(self)@.0 == old(self)@.0,
            r == (1 <= index <= old(self)@.0.len() && index - 1 != old(self)@.1),
            final(self)@.1 == if 1 <= index <= old(self)@.0.len() {
                index - 1
            } else {
                old(self)@.1
            },
    {
        if index > 0 && index <= self.tabs.len() {
            self.switch_tab(index - 1)
        } else {
            false
        }
    }

    /// Appends `tab` and makes it active; returns its index.
    pub fn new_tab(&mut self, tab: T) -> (r: usize)
        requires
            old(self).wf(),
        ensures
            final(self).wf(),
            final(self)@.0 == old(self)@.0.push(tab),
            final(self)@.1 == old(self)@.0.len(),
            r == old(self)@.0.len(),
    {
        self.tabs.push(tab);
        self.active = self.tabs.len() - 1;
        self.active
    }

    /// Opens `tab` in a new tab: appends it and makes it active; the tab
    /// that was active stays where it was.
    pub fn open_in_new_tab(&mut self, tab: T)
        requires
            old(self).wf(),
        ensures
            final(self).wf(),
            final(self)@.0 == old(self)@.0.push(tab),
            final(self)@.1 == old(self)@.0.len(),
    {
        self.tabs.push(tab);
        self.active = self.tabs.len() - 1;
    }

    /// Closes the active tab. The last remaining tab is replaced by `fresh`
    /// instead. Returns whether tabs remain (always).
    pub fn close_current_tab(&mut self, fresh: T) -> (r: bool)
        requires
            old(self).wf(),
        ensures
            final(self).wf(),
            r,
            old(self)@.0.len() <= 1 ==> final(self)@.0 == seq![fresh] && final(self)@.1 == 0,
            old(self)@.0.len() > 1 ==> {
                &&& final(self)@.0 == old(self)@.0.remove(old(self)@.1)
                &&& final(self)@.1 == if old(self)@.1 >= old(self)@.0.len() - 1 {
                    old(self)@.0.len() - 2
                } else {
                    old(self)@.1
                }
            },
    {
        if self.tabs.len() <= 1 {
            let mut fresh = fresh;
            self.tabs.set_and_swap(0, &mut fresh);
            self.active = 0;
            assert(self.tabs@ =~= seq![self.tabs@[0]]);
            return true;
        }
        let i = self.active;
        let _closed = self.tabs.remove(i);
        let n = self.tabs.len();
        let a = if i >= n {
            n - 1
        } else {
            i
        };
        self.active = a;
        true
    }

    /// Closes tab `index`, which is not the active one; the active tab stays
    /// active.
    pub fn close_tab_at(&mut self, index: usize)
        requires
            old(self).wf(),
            index < old(self)@.0.len(),
            index != old(self)@.1,
        ensures
            final(self).wf(),
            final(self)@.0 == old(self)@.0.remove(index as int),
            final(self)@.1 == index_after_removal(old(self)@.1, index as int),
    {
        let _closed = self.tabs.remove(index);
        if index < self.active {
            self.active = self.active - 1;
        }
    }
}

/// Going to the next tab and then to the previous one comes back to the
/// starting tab.
pub proof fn lemma_next_then_prev(a: int, len: int)
    requires
        len > 1,
        0 <= a < len,
    ensures
        prev_index(next_index(a, len), len) == a,
        0 <= next_index(a, len) < len,
        next_index(a, len) != a,
{
    if a + 1 < len {
        lemma_small_mod((a + 1) as nat, len as nat);
        lemma_mod_add_multiples_vanish(a, len);
        lemma_small_mod(a as nat, len as nat);
    } else {
        lemma_mod_self_0(len);
        lemma_small_mod((len - 1) as nat, len as nat);
    }
}

/// Going to the previous tab and then to the next one comes back to the
/// starting tab.
pub proof fn lemma_prev_then_next(a: int, len: int)
    requires
        len > 1,
        0 <= a < len,
    ensures
        next_index(prev_index(a, len), len) == a,
        prev_index(a, len) == if a == 0 {
            len - 1
        } else {
            a - 1
        },
        0 <= prev_index(a, len) < len,
        prev_index(a, len) != a,
{
    if a > 0 {
        lemma_mod_add_multiples_vanish(a - 1, len);
        lemma_small_mod((a - 1) as nat, len as nat);
        lemma_small_mod(a as nat, len as nat);
    } else {
        lemma_small_mod((len - 1) as nat, len as nat);
        lemma_mod_self_0(len);
    }
}

/// Closing a tab other than the active one leaves the same tab active.
pub proof fn lemma_close_other_keeps_active<T>(tabs: Seq<T>, active: int, index: int)
    requires
        0 <= active < tabs.len(),
        0 <= index < tabs.len(),
        index != active,
    ensures
        0 <= index_after_removal(active, index) < tabs.remove(index).len(),
        tabs.remove(index)[index_after_removal(active, index)] == tabs[active],
{
}

/// `next_tab` followed by `prev_tab`, or the other way round, leaves the
/// same tabs with the same one active.
pub proof fn lemma_next_tab_then_prev_tab<T>(tabs: TabList<T>)
    requires
        tabs.wf(),
    ensures
        after_prev_tab(after_next_tab(tabs@)) == tabs@,
        after_next_tab(after_prev_tab(tabs@)) == tabs@,
        after_prev_tab(after_next_tab(tabs@)).0[tabs@.1] == tabs@.0[tabs@.1],
{
    let len = tabs@.0.len() as int;
    if len > 1 {
        lemma_next_then_prev(tabs@.1, len);
        lemma_prev_then_next(tabs@.1, len);
    }
}

} // verus!
