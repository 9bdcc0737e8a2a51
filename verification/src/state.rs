//! The interaction state machine: one owned state value, advanced by key
//! events and by loader messages.  Every transition is stated by `step_ok`
//! and `msg_ok`, which the exec code is proved to follow.

use vstd::prelude::*;

use crate::scan::Entry;
use crate::search;
use crate::table;
use crate::text;

verus! {

/// Which modal owns the input.
#[derive(Clone, Copy, Debug, PartialEq, Eq, Structural)]
pub enum Modal {
    Browsing,
    PickerOpen,
    SearchOpen,
}

/// A discrete key event the state machine understands.
#[derive(Clone, Copy, Debug, PartialEq, Eq, Structural)]
pub enum Key {
    Up,
    Down,
    Left,
    Right,
    Tab,
    Esc,
    Enter,
    Backspace,
    Char(char),
}

/// What the caller must do after a key was applied: nothing, dispatch a
/// directory scan, dispatch a file load, or end the session.
pub enum Action {
    Stay,
    Scan(String),
    Load(String),
    Quit,
}

/// A result a worker posts back on the loader channel.
pub enum LoaderMsg {
    EntriesReady(Vec<Entry>),
    TableReady(Vec<Vec<String>>),
}

/// A selection is the first index while its list is empty, in range else.
pub open spec fn sel_ok(sel: usize, len: nat) -> bool {
    if len == 0 {
        sel == 0
    } else {
        (sel as nat) < len
    }
}

/// The selection one step up: saturates at the first index.
pub open spec fn dec_sel(x: usize) -> usize {
    if x == 0 {
        0usize
    } else {
        (x - 1) as usize
    }
}

/// The picker selection one step down: wraps to the first index at the end.
pub open spec fn wrap_next(x: usize, len: nat) -> usize {
    if x + 1 >= len {
        0usize
    } else {
        (x + 1) as usize
    }
}

/// The table selection one step down: saturates at the last row.
pub open spec fn clamp_next(x: usize, len: nat) -> usize {
    if len == 0 {
        0usize
    } else if x + 1 >= len {
        (len - 1) as usize
    } else {
        (x + 1) as usize
    }
}

/// One horizontal scroll step left, saturating at the origin.
pub open spec fn scroll_left(x: u16) -> u16 {
    if x >= 5 {
        (x - 5) as u16
    } else {
        0u16
    }
}

/// One horizontal scroll step right, saturating at the widest offset.
pub open spec fn scroll_right(x: u16) -> u16 {
    if x as int + 5 > 65535 {
        65535u16
    } else {
        (x + 5) as u16
    }
}

/// All interactive state: the picker, the loaded table, the modal and the
/// search state.  Owned by the interaction thread alone.
pub struct App {
    pub picker_path: String,
    pub picker_entries: Vec<Entry>,
    pub picker_selected: usize,
    pub table_rows: Vec<Vec<String>>,
    pub table_selected: usize,
    pub scroll_x: u16,
    pub scroll_y: u16,
    pub modal: Modal,
    pub search_input: String,
    pub search_results: Vec<usize>,
}

pub open spec fn eq_picker(a: App, b: App) -> bool {
    a.picker_path == b.picker_path && a.picker_entries == b.picker_entries && a.picker_selected
        == b.picker_selected
}

pub open spec fn eq_table(a: App, b: App) -> bool {
    a.table_rows == b.table_rows && a.table_selected == b.table_selected
}

pub open spec fn eq_scroll(a: App, b: App) -> bool {
    a.scroll_x == b.scroll_x && a.scroll_y == b.scroll_y
}

pub open spec fn eq_search(a: App, b: App) -> bool {
    a.search_input == b.search_input && a.search_results == b.search_results
}

impl App {
    /// Selections stay inside their lists and search results name rows of
    /// the current table.
    pub open spec fn wf(self) -> bool {
        &&& sel_ok(self.picker_selected, self.picker_entries@.len())
        &&& sel_ok(self.table_selected, self.table_rows@.len())
        &&& forall|i: int|
            0 <= i < self.search_results@.len() ==> ((#[trigger] self.search_results@[i]) as nat)
                < self.table_rows@.len()
    }

    /// Decides well-formedness, so that unverified callers can test it.
    pub fn check_wf(&self) -> (r: bool)
        ensures
            r == self.wf(),
    {
        let picker_ok = if self.picker_entries.len() == 0 {
            self.picker_selected == 0
        } else {
            self.picker_selected < self.picker_entries.len()
        };
        let table_ok = if self.table_rows.len() == 0 {
            self.table_selected == 0
        } else {
            self.table_selected < self.table_rows.len()
        };
        if !(picker_ok && table_ok) {
            return false;
        }
        let mut i: usize = 0;
        while i < self.search_results.len()
            invariant
                i <= self.search_results@.len(),
                forall|k: int|
                    0 <= k < i ==> ((#[trigger] self.search_results@[k]) as nat)
                        < self.table_rows@.len(),
                sel_ok(self.picker_selected, self.picker_entries@.len()),
                sel_ok(self.table_selected, self.table_rows@.len()),
            decreases self.search_results@.len() - i,
        {
            if self.search_results[i] >= self.table_rows.len() {
                return false;
            }
            i = i + 1;
        }
        true
    }

    /// A fresh state: browsing, nothing loaded, the picker rooted at `path`.
    pub fn init(path: String) -> (r: App)
        ensures
            r.wf(),
            r.modal is Browsing,
            r.picker_path == path,
            r.picker_entries@.len() == 0,
            r.picker_selected == 0,
            r.table_rows@.len() == 0,
            r.table_selected == 0,
            r.scroll_x == 0 && r.scroll_y == 0,
            r.search_input@.len() == 0,
            r.search_results@.len() == 0,
    {
        App {
            picker_path: path,
            picker_entries: Vec::new(),
            picker_selected: 0,
            table_rows: Vec::new(),
            table_selected: 0,
            scroll_x: 0,
            scroll_y: 0,
            modal: Modal::Browsing,
            search_input: String::new(),
            search_results: Vec::new(),
        }
    }

    /// Applies one loader message: a scan result replaces the entry list and
    /// rehomes its selection; a load result replaces the table wholesale,
    /// rehomes its selection, resets the scroll to the origin and clears any
    /// previous search results.
    pub fn apply_message(&mut self, msg: LoaderMsg)
        requires
            old(self).wf(),
        ensures
            final(self).wf(),
            msg_ok(*old(self), *final(self), msg),
    {
        match msg {
            LoaderMsg::EntriesReady(list) => {
                self.picker_entries = list;
                self.picker_selected = 0;
            },
            LoaderMsg::TableReady(rows) => {
                self.table_rows = rows;
                self.table_selected = 0;
                self.scroll_x = 0;
                self.scroll_y = 0;
                self.search_results.clear();
            },
        }
    }

    /// Commits the search input: runs the engine over the current table,
    /// stores the result, and jumps the selection to the first hit when
    /// there is one; an empty result leaves the selection untouched.
    pub fn perform_search(&mut self)
        requires
            old(self).wf(),
        ensures
            final(self).wf(),
            search_ok(*old(self), *final(self)),
    {
        let n = self.table_rows.len();
        let results = search::search(&self.table_rows, self.search_input.as_str());
        proof {
            let tv = table::row_views(self.table_rows@);
            let needle = text::trim_spec(self.search_input@);
            if needle.len() > 0 {
                search::lemma_search_idx_exact(tv, needle);
            }
        }
        if results.len() > 0 {
            self.table_selected = results[0];
        }
        self.search_results = results;
    }

    /// Applies one key event and says what the caller must now do.  The
    /// whole transition relation is `step_ok`.
    pub fn handle_key(&mut self, key: Key) -> (act: Action)
        requires
            old(self).wf(),
        ensures
            final(self).wf(),
            step_ok(*old(self), *final(self), key, act),
    {
        if let Key::Char(c) = key {
            if c == 'q' {
                return Action::Quit;
            }
        }
        match self.modal {
            Modal::Browsing => {
                match key {
                    Key::Char(c) => {
                        if c == '/' {
                            self.modal = Modal::SearchOpen;
                            self.search_input = String::new();
                        }
                        Action::Stay
                    },
                    Key::Tab => {
                        self.modal = Modal::PickerOpen;
                        Action::Scan(self.picker_path.clone())
                    },
                    Key::Up => {
                        if self.table_selected > 0 {
                            self.table_selected = self.table_selected - 1;
                        }
                        Action::Stay
                    },
                    Key::Down => {
                        let len = self.table_rows.len();
                        if len > 0 && self.table_selected + 1 < len {
                            self.table_selected = self.table_selected + 1;
                        } else if len > 0 {
                            self.table_selected = len - 1;
                        }
                        Action::Stay
                    },
                    Key::Left => {
                        if self.scroll_x >= 5 {
                            self.scroll_x = self.scroll_x - 5;
                        } else {
                            self.scroll_x = 0;
                        }
                        Action::Stay
                    },
                    Key::Right => {
                        if self.scroll_x > 65530 {
                            self.scroll_x = 65535;
                        } else {
                            self.scroll_x = self.scroll_x + 5;
                        }
                        Action::Stay
                    },
                    _ => Action::Stay,
                }
            },
            Modal::PickerOpen => {
                match key {
                    Key::Tab => {
                        self.modal = Modal::Browsing;
                        Action::Stay
                    },
                    Key::Esc => {
                        self.modal = Modal::Browsing;
                        Action::Stay
                    },
                    Key::Up => {
                        if self.picker_selected > 0 {
                            self.picker_selected = self.picker_selected - 1;
                        }
                        Action::Stay
                    },
                    Key::Down => {
                        let len = self.picker_entries.len();
                        if len > 0 && self.picker_selected + 1 < len {
                            self.picker_selected = self.picker_selected + 1;
                        } else {
                            self.picker_selected = 0;
                        }
                        Action::Stay
                    },
                    Key::Enter => {
                        let len = self.picker_entries.len();
                        if self.picker_selected < len {
                            let is_dir = self.picker_entries[self.picker_selected].is_dir;
                            let path = self.picker_entries[self.picker_selected].path.clone();
                            if is_dir {
                                self.picker_path = path.clone();
                                Action::Scan(path)
                            } else {
                                self.modal = Modal::Browsing;
                                Action::Load(path)
                            }
                        } else {
                            Action::Stay
                        }
                    },
                    _ => Action::Stay,
                }
            },
            Modal::SearchOpen => {
                match key {
                    Key::Esc => {
                        self.modal = Modal::Browsing;
                        Action::Stay
                    },
                    Key::Enter => {
                        self.perform_search();
                        self.modal = Modal::Browsing;
                        Action::Stay
                    },
                    Key::Backspace => {
                        let n = self.search_input.as_str().unicode_len();
                        if n > 0 {
                            let shorter = self.search_input.as_str().substring_char(
                                0,
                                n - 1,
                            ).to_owned();
                            proof {
                                assert(shorter@ =~= old(self).search_input@.drop_last());
                            }
                            self.search_input = shorter;
                        }
                        Action::Stay
                    },
                    Key::Char(c) => {
                        text::push_char(&mut self.search_input, c);
                        Action::Stay
                    },
                    _ => Action::Stay,
                }
            },
        }
    }
}

/// How a loader message moves the state.
pub open spec fn msg_ok(pre: App, post: App, msg: LoaderMsg) -> bool {
    match msg {
        LoaderMsg::EntriesReady(list) => {
            &&& post.picker_entries == list
            &&& post.picker_selected == 0
            &&& post.picker_path == pre.picker_path
            &&& eq_table(pre, post)
            &&& eq_scroll(pre, post)
            &&& post.modal == pre.modal
            &&& eq_search(pre, post)
        },
        LoaderMsg::TableReady(rows) => {
            &&& post.table_rows == rows
            &&& post.table_selected == 0
            &&& post.scroll_x == 0 && post.scroll_y == 0
            &&& post.search_results@ == Seq::<usize>::empty()
            &&& eq_picker(pre, post)
            &&& post.modal == pre.modal
            &&& post.search_input == pre.search_input
        },
    }
}

/// How committing a search moves the state: the engine's result is stored,
/// and the selection jumps to the first hit iff there is one.
pub open spec fn search_ok(pre: App, post: App) -> bool {
    &&& post.search_results@ == search::search_spec(
        table::row_views(pre.table_rows@),
        pre.search_input@,
    )
    &&& (post.search_results@.len() > 0 ==> post.table_selected == post.search_results@[0])
    &&& (post.search_results@.len() == 0 ==> post.table_selected == pre.table_selected)
    &&& eq_picker(pre, post)
    &&& post.table_rows == pre.table_rows
    &&& eq_scroll(pre, post)
    &&& post.modal == pre.modal
    &&& post.search_input == pre.search_input
}

/// The whole key-transition relation: what each key does in each modal.
pub open spec fn step_ok(pre: App, post: App, key: Key, act: Action) -> bool {
    if key == Key::Char('q') {
        post == pre && act is Quit
    } else if pre.modal is Browsing {
        match key {
            Key::Char(c) => {
                if c == '/' {
                    &&& post.modal is SearchOpen
                    &&& post.search_input@ == Seq::<char>::empty()
                    &&& post.search_results == pre.search_results
                    &&& eq_picker(pre, post)
                    &&& eq_table(pre, post)
                    &&& eq_scroll(pre, post)
                    &&& act is Stay
                } else {
                    post == pre && act is Stay
                }
            },
            Key::Tab => {
                &&& post.modal is PickerOpen
                &&& eq_picker(pre, post)
                &&& eq_table(pre, post)
                &&& eq_scroll(pre, post)
                &&& eq_search(pre, post)
                &&& (act matches Action::Scan(p) && p == pre.picker_path)
            },
            Key::Up => {
                &&& post.table_selected == dec_sel(pre.table_selected)
                &&& post.table_rows == pre.table_rows
                &&& eq_picker(pre, post)
                &&& eq_scroll(pre, post)
                &&& eq_search(pre, post)
                &&& post.modal == pre.modal
                &&& act is Stay
            },
            Key::Down => {
                &&& post.table_selected == clamp_next(pre.table_selected, pre.table_rows@.len())
                &&& post.table_rows == pre.table_rows
                &&& eq_picker(pre, post)
                &&& eq_scroll(pre, post)
                &&& eq_search(pre, post)
                &&& post.modal == pre.modal
                &&& act is Stay
            },
            Key::Left => {
                &&& post.scroll_x == scroll_left(pre.scroll_x)
                &&& post.scroll_y == pre.scroll_y
                &&& eq_picker(pre, post)
                &&& eq_table(pre, post)
                &&& eq_search(pre, post)
                &&& post.modal == pre.modal
                &&& act is Stay
            },
            Key::Right => {
                &&& post.scroll_x == scroll_right(pre.scroll_x)
                &&& post.scroll_y == pre.scroll_y
                &&& eq_picker(pre, post)
                &&& eq_table(pre, post)
                &&& eq_search(pre, post)
                &&& post.modal == pre.modal
                &&& act is Stay
            },
            _ => post == pre && act is Stay,
        }
    } else if pre.modal is PickerOpen {
        match key {
            Key::Tab | Key::Esc => {
                &&& post.modal is Browsing
                &&& eq_picker(pre, post)
                &&& eq_table(pre, post)
                &&& eq_scroll(pre, post)
                &&& eq_search(pre, post)
                &&& act is Stay
            },
            Key::Up => {
                &&& post.picker_selected == dec_sel(pre.picker_selected)
                &&& post.picker_path == pre.picker_path
                &&& post.picker_entries == pre.picker_entries
                &&& eq_table(pre, post)
                &&& eq_scroll(pre, post)
                &&& eq_search(pre, post)
                &&& post.modal == pre.modal
                &&& act is Stay
            },
            Key::Down => {
                &&& post.picker_selected == wrap_next(
                    pre.picker_selected,
                    pre.picker_entries@.len(),
                )
                &&& post.picker_path == pre.picker_path
                &&& post.picker_entries == pre.picker_entries
                &&& eq_table(pre, post)
                &&& eq_scroll(pre, post)
                &&& eq_search(pre, post)
                &&& post.modal == pre.modal
                &&& act is Stay
            },
            Key::Enter => {
                if (pre.picker_selected as nat) < pre.picker_entries@.len() {
                    let e = pre.picker_entries@[pre.picker_selected as int];
                    if e.is_dir {
                        &&& post.picker_path == e.path
                        &&& post.picker_entries == pre.picker_entries
                        &&& post.picker_selected == pre.picker_selected
                        &&& eq_table(pre, post)
                        &&& eq_scroll(pre, post)
                        &&& eq_search(pre, post)
                        &&& post.modal == pre.modal
                        &&& (act matches Action::Scan(p) && p == e.path)
                    } else {
                        &&& post.modal is Browsing
                        &&& eq_picker(pre, post)
                        &&& eq_table(pre, post)
                        &&& eq_scroll(pre, post)
                        &&& eq_search(pre, post)
                        &&& (act matches Action::Load(p) && p == e.path)
                    }
                } else {
                    post == pre && act is Stay
                }
            },
            _ => post == pre && act is Stay,
        }
    } else {
        match key {
            Key::Esc => {
                &&& post.modal is Browsing
                &&& eq_picker(pre, post)
                &&& eq_table(pre, post)
                &&& eq_scroll(pre, post)
                &&& eq_search(pre, post)
                &&& act is Stay
            },
            Key::Enter => {
                &&& post.modal is Browsing
                &&& post.search_results@ == search::search_spec(
                    table::row_views(pre.table_rows@),
                    pre.search_input@,
                )
                &&& (post.search_results@.len() > 0 ==> post.table_selected
                    == post.search_results@[0])
                &&& (post.search_results@.len() == 0 ==> post.table_selected
                    == pre.table_selected)
                &&& post.table_rows == pre.table_rows
                &&& eq_picker(pre, post)
                &&& eq_scroll(pre, post)
                &&& post.search_input == pre.search_input
                &&& act is Stay
            },
            Key::Backspace => {
                &&& (if pre.search_input@.len() > 0 {
                    post.search_input@ == pre.search_input@.drop_last()
                } else {
                    post.search_input == pre.search_input
                })
                &&& post.search_results == pre.search_results
                &&& eq_picker(pre, post)
                &&& eq_table(pre, post)
                &&& eq_scroll(pre, post)
                &&& post.modal == pre.modal
                &&& act is Stay
            },
            Key::Char(c) => {
                &&& post.search_input@ == pre.search_input@.push(c)
                &&& post.search_results == pre.search_results
                &&& eq_picker(pre, post)
                &&& eq_table(pre, post)
                &&& eq_scroll(pre, post)
                &&& post.modal == pre.modal
                &&& act is Stay
            },
            _ => post == pre && act is Stay,
        }
    }
}

} // verus!
