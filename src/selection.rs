//! Cyclic selectors: a list with an optional selected item, and a tab bar.

use vstd::prelude::*;
use vstd::arithmetic::div_mod::*;
use crate::ConfigError;

verus! {

/// The selection after moving forward in a list of `len` items: the first
/// item when nothing is selected, wrapping past the end; unchanged when the
/// list is empty.
pub open spec fn next_selection(selected: Option<usize>, len: nat) -> Option<usize> {
    if len == 0 {
        selected
    } else {
        match selected {
            None => Some(0),
            Some(i) => Some(((i + 1) % (len as int)) as usize),
        }
    }
}

/// The selection after moving backward in a list of `len` items: the last
/// item when nothing is selected, wrapping past the start; unchanged when the
/// list is empty.
pub open spec fn previous_selection(selected: Option<usize>, len: nat) -> Option<usize> {
    if len == 0 {
        selected
    } else {
        match selected {
            None => Some((len - 1) as usize),
            Some(i) => Some(((i + len - 1) % (len as int)) as usize),
        }
    }
}

/// An ordered list of items with an optional selected position. A new list
/// starts with nothing selected.
pub struct StatefulList<T> {
    items: Vec<T>,
    selected: Option<usize>,
}

impl<T> StatefulList<T> {
    pub closed spec fn items_spec(&self) -> Seq<T> {
        self.items@
    }

    pub closed spec fn selected_spec(&self) -> Option<usize> {
        self.selected
    }

    /// A selection, when there is one, points at an item.
    pub open spec fn wf(&self) -> bool {
        match self.selected_spec() {
            Some(i) => i < self.items_spec().len(),
            None => true,
        }
    }

    pub fn with_items(items: Vec<T>) -> (r: StatefulList<T>)
        ensures
            r.wf(),
            r.items_spec() == items@,
            r.selected_spec() == None::<usize>,
    {
        StatefulList { items, selected: None }
    }

    pub fn items(&self) -> (r: &Vec<T>)
        ensures
            r@ == self.items_spec(),
    {
        &self.items
    }

    pub fn selected(&self) -> (r: Option<usize>)
        ensures
            r == self.selected_spec(),
    {
        self.selected
    }

    /// Selects the following item, wrapping to the first.
    pub fn next(&mut self)
        requires
            old(self).wf(),
        ensures
            final(self).wf(),
            final(self).items_spec() == old(self).items_spec(),
            final(self).selected_spec() == next_selection(
                old(self).selected_spec(),
                old(self).items_spec().len(),
            ),
    {
        let len = self.items.len();
        if len > 0 {
            let i = match self.selected {
                Some(i) => {
                    if i + 1 >= len {
                        proof {
                            lemma_mod_self_0(len as int);
                        }
                        0
                    } else {
                        proof {
                            lemma_small_mod((i + 1) as nat, len as nat);
                        }
                        i + 1
                    }
                },
                None => 0,
            };
            self.selected = Some(i);
        }
    }

    /// Selects the preceding item, wrapping to the last.
    pub fn previous(&mut self)
        requires
            old(self).wf(),
        ensures
            final(self).wf(),
            final(self).items_spec() == old(self).items_spec(),
            final(self).selected_spec() == previous_selection(
                old(self).selected_spec(),
                old(self).items_spec().len(),
            ),
    {
        let len = self.items.len();
        if len > 0 {
            let i = match self.selected {
                Some(i) => {
                    if i == 0 {
                        proof {
                            lemma_small_mod((len - 1) as nat, len as nat);
                        }
                        len - 1
                    } else {
                        proof {
                            lemma_mod_add_multiples_vanish(i - 1, len as int);
                            lemma_small_mod((i - 1) as nat, len as nat);
                        }
                        i - 1
                    }
                },
                None => len - 1,
            };
            self.selected = Some(i);
        }
    }
}

/// Moving forward then backward, or backward then forward, from a selected
/// item of a list of `len` items comes back to that item.
pub proof fn lemma_next_previous_round_trip(i: usize, len: nat)
    requires
        i < len <= usize::MAX,
    ensures
        previous_selection(next_selection(Some(i), len), len) == Some(i),
        next_selection(previous_selection(Some(i), len), len) == Some(i),
{
    let n = len as int;
    if i + 1 < n {
        lemma_small_mod((i + 1) as nat, len);
        assert(next_selection(Some(i), len) == Some((i + 1) as usize));
        lemma_mod_add_multiples_vanish(i as int, n);
        lemma_small_mod(i as nat, len);
        assert((i + 1 + n - 1) % n == i);
    } else {
        lemma_mod_self_0(n);
        assert(next_selection(Some(i), len) == Some(0usize));
        lemma_small_mod((n - 1) as nat, len);
        assert((0 + n - 1) % n == i);
    }
    if i > 0 {
        lemma_mod_add_multiples_vanish(i - 1, n);
        lemma_small_mod((i - 1) as nat, len);
        assert((i + n - 1) % n == i - 1);
        assert(previous_selection(Some(i), len) == Some((i - 1) as usize));
        lemma_small_mod(i as nat, len);
        assert((i - 1 + 1) % n == i);
    } else {
        lemma_small_mod((n - 1) as nat, len);
        assert(previous_selection(Some(i), len) == Some((n - 1) as usize));
        lemma_mod_self_0(n);
        assert((n - 1 + 1) % n == 0);
    }
}

/// The tab index after one step forward among `len` tabs.
pub open spec fn next_tab(index: nat, len: nat) -> nat {
    (index + 1) % len
}

/// The tab index after one step backward among `len` tabs.
pub open spec fn previous_tab(index: nat, len: nat) -> nat {
    ((index + len - 1) as nat) % len
}

/// The tab index after `n` steps forward among `len` tabs.
pub open spec fn tab_after(index: nat, len: nat, n: nat) -> nat
    decreases n,
{
    if n == 0 {
        index
    } else {
        next_tab(tab_after(index, len, (n - 1) as nat), len)
    }
}

/// A non-empty row of tab titles with a current index, moved cyclically.
pub struct TabsState {
    titles: Vec<String>,
    index: usize,
}

impl TabsState {
    pub closed spec fn titles_spec(&self) -> Seq<String> {
        self.titles@
    }

    pub closed spec fn index_spec(&self) -> nat {
        self.index as nat
    }

    /// The index points at a title.
    pub open spec fn wf(&self) -> bool {
        self.index_spec() < self.titles_spec().len()
    }

    /// Tabs over `titles` with the first one current; no titles is an error.
    pub fn new(titles: Vec<String>) -> (r: Result<TabsState, ConfigError>)
        ensures
            titles@.len() == 0 <==> r is Err,
            r is Err ==> r->Err_0 == ConfigError::EmptyTabs,
            r is Ok ==> r->Ok_0.wf() && r->Ok_0.titles_spec() == titles@
                && r->Ok_0.index_spec() == 0,
    {
        if titles.len() == 0 {
            Err(ConfigError::EmptyTabs)
        } else {
            Ok(TabsState { titles, index: 0 })
        }
    }

    pub fn titles(&self) -> (r: &Vec<String>)
        ensures
            r@ == self.titles_spec(),
    {
        &self.titles
    }

    pub fn index(&self) -> (r: usize)
        ensures
            r == self.index_spec(),
    {
        self.index
    }

    /// Moves to the following tab, wrapping to the first.
    pub fn next(&mut self)
        requires
            old(self).wf(),
        ensures
            final(self).wf(),
            final(self).titles_spec() == old(self).titles_spec(),
            final(self).index_spec() == next_tab(
                old(self).index_spec(),
                old(self).titles_spec().len(),
            ),
    {
        let len = self.titles.len();
        proof {
            lemma_mod_self_0(len as int);
            if self.index + 1 < len {
                lemma_small_mod((self.index + 1) as nat, len as nat);
            }
        }
        self.index = if self.index + 1 >= len {
            0
        } else {
            self.index + 1
        };
    }

    /// Moves to the preceding tab, wrapping to the last.
    pub fn previous(&mut self)
        requires
            old(self).wf(),
        ensures
            final(self).wf(),
            final(self).titles_spec() == old(self).titles_spec(),
            final(self).index_spec() == previous_tab(
                old(self).index_spec(),
                old(self).titles_spec().len(),
            ),
    {
        let len = self.titles.len();
        proof {
            lemma_small_mod((len - 1) as nat, len as nat);
            if self.index > 0 {
                lemma_mod_add_multiples_vanish(self.index - 1, len as int);
                lemma_small_mod((self.index - 1) as nat, len as nat);
            }
        }
        self.index = if self.index > 0 {
            self.index - 1
        } else {
            len - 1
        };
    }
}

/// Among `len` tabs, any number of forward steps keeps the index in range,
/// and exactly `len` of them come back to the starting index.
pub proof fn lemma_tabs_cycle(index: nat, len: nat, n: nat)
    requires
        index < len,
    ensures
        tab_after(index, len, n) < len,
        tab_after(index, len, len) == index,
{
    lemma_tab_after_closed_form(index, len, n);
    lemma_tab_after_closed_form(index, len, len);
    lemma_mod_bound((index + n) as int, len as int);
    lemma_mod_add_multiples_vanish(index as int, len as int);
    lemma_small_mod(index, len);
}

proof fn lemma_tab_after_closed_form(index: nat, len: nat, n: nat)
    requires
        index < len,
    ensures
        tab_after(index, len, n) == (index + n) % len,
    decreases n,
{
    if n == 0 {
        lemma_small_mod(index, len);
    } else {
        lemma_tab_after_closed_form(index, len, (n - 1) as nat);
        lemma_add_mod_noop_right(1, (index + n - 1) as int, len as int);
    }
}

} // verus!
