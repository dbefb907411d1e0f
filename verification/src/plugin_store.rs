//! The plugin store panel's state: the installed list, search results, the
//! selection, the live-search query with its debounce, and the outcome of
//! background jobs. The shell runs the jobs and owns the clock; it hands the
//! results and the current time in.

use vstd::prelude::*;
use crate::text::{chars_of, string_of, own, push_str, push_char, trim_chars, trimmed, decimal, decimal_string};

verus! {

/// Idle time after the last keystroke before a live search fires, in
/// milliseconds.
pub const SEARCH_DEBOUNCE_MS: u64 = 280;

#[derive(Clone, Copy, PartialEq, Eq, Structural, Debug, Default)]
pub enum StoreTab {
    #[default]
    Installed,
    Browse,
}

/// One row of the store: an installed extension or a search result.
#[derive(Clone, Debug)]
pub struct StoreItem {
    /// `publisher.name`.
    pub id: String,
    pub name: String,
    pub version: String,
    pub description: String,
    pub installed: bool,
    /// Fidelity badge once profiled.
    pub fidelity: Option<char>,
    pub downloads: u64,
}

/// One row of the Extensions panel: an extension header or a command under
/// it.
#[derive(Clone, Debug)]
pub struct ExtRow {
    pub is_header: bool,
    pub primary: String,
    pub secondary: String,
    /// The command this row runs, if any.
    pub command: Option<String>,
}

/// What a background job delivered.
pub enum StoreMsg {
    Results(Vec<StoreItem>),
    Installed { id: String, version: String },
    Error(String),
}

/// The panel's state.
pub struct PluginStore {
    pub open: bool,
    pub tab: StoreTab,
    pub installed: Vec<StoreItem>,
    pub results: Vec<StoreItem>,
    pub selected: usize,
    /// The search query.
    pub query: String,
    /// Typing into the query.
    pub input: bool,
    pub loading: bool,
    pub message: String,
    /// An install just completed.
    pub just_installed: bool,
    /// A background job's results are awaited.
    pub waiting: bool,
    /// When the query last changed, in milliseconds of the shell's clock.
    pub dirty_since: Option<u64>,
    /// The query most recently searched.
    pub last_searched: String,
}

/// The rows the active tab shows.
pub open spec fn rows_spec(s: PluginStore) -> Seq<StoreItem> {
    match s.tab {
        StoreTab::Installed => s.installed@,
        StoreTab::Browse => s.results@,
    }
}

/// A live search is due: the trimmed query is not empty, differs from the
/// last one searched, and has been still for the debounce time.
pub open spec fn search_due_spec(s: PluginStore, now: u64) -> bool {
    let q = trimmed(s.query@);
    q.len() > 0 && q != s.last_searched@ && match s.dirty_since {
        Some(t) => now >= t && now - t >= SEARCH_DEBOUNCE_MS,
        None => false,
    }
}

/// The selection after moving by `delta` among `len` rows.
pub open spec fn moved(sel: usize, delta: isize, len: int) -> usize {
    if len == 0 {
        0
    } else {
        let cur = sel + delta;
        if cur < 0 {
            0
        } else if cur > len - 1 {
            (len - 1) as usize
        } else {
            cur as usize
        }
    }
}

/// What the panel says for a message from a job.
pub open spec fn msg_text(m: StoreMsg) -> Seq<char> {
    match m {
        StoreMsg::Results(items) => decimal(items@.len()) + " result(s) · Enter to install"@,
        StoreMsg::Installed { id, version } => "installed "@ + id@ + " v"@ + version@ + " — loading…"@,
        StoreMsg::Error(e) => "error: "@ + e@,
    }
}

impl PluginStore {
    pub fn new() -> (s: Self)
        ensures
            !s.open,
            s.tab == StoreTab::Installed,
            s.installed@.len() == 0,
            s.results@.len() == 0,
            s.selected == 0,
            s.query@ == Seq::<char>::empty(),
            !s.input,
            !s.loading,
            !s.waiting,
            s.dirty_since is None,
            s.last_searched@ == Seq::<char>::empty(),
    {
        PluginStore {
            open: false,
            tab: StoreTab::Installed,
            installed: Vec::new(),
            results: Vec::new(),
            selected: 0,
            query: String::new(),
            input: false,
            loading: false,
            message: String::new(),
            just_installed: false,
            waiting: false,
            dirty_since: None,
            last_searched: String::new(),
        }
    }

    /// Open on the installed list.
    pub fn open(&mut self, installed: Vec<StoreItem>)
        ensures
            final(self).open,
            final(self).tab == StoreTab::Installed,
            final(self).installed@ == installed@,
            final(self).selected == 0,
            !final(self).input,
            final(self).message@ == "j/k move · Tab switch · / search · Enter install · x uninstall · Esc close"@,
            final(self).results@ == old(self).results@,
            final(self).query@ == old(self).query@,
    {
        self.open = true;
        self.tab = StoreTab::Installed;
        self.installed = installed;
        self.selected = 0;
        self.input = false;
        self.message = own("j/k move · Tab switch · / search · Enter install · x uninstall · Esc close");
    }

    /// Close; an awaited job is no longer awaited.
    pub fn close(&mut self)
        ensures
            !final(self).open,
            !final(self).input,
            !final(self).loading,
            !final(self).waiting,
            final(self).installed@ == old(self).installed@,
            final(self).results@ == old(self).results@,
    {
        self.open = false;
        self.input = false;
        self.loading = false;
        self.waiting = false;
    }

    /// The rows the active tab shows.
    pub fn rows(&self) -> (r: &[StoreItem])
        ensures
            r@ == rows_spec(*self),
    {
        match self.tab {
            StoreTab::Installed => self.installed.as_slice(),
            StoreTab::Browse => self.results.as_slice(),
        }
    }

    pub fn selected_item(&self) -> (r: Option<&StoreItem>)
        ensures
            match r {
                Some(it) => self.selected < rows_spec(*self).len() && *it == rows_spec(*self)[self.selected as int],
                None => self.selected >= rows_spec(*self).len(),
            },
    {
        let rows = self.rows();
        if self.selected < rows.len() {
            Some(&rows[self.selected])
        } else {
            None
        }
    }

    /// The other tab, selection at the top.
    pub fn switch_tab(&mut self)
        ensures
            final(self).tab == (if old(self).tab == StoreTab::Installed {
                StoreTab::Browse
            } else {
                StoreTab::Installed
            }),
            final(self).selected == 0,
            final(self).installed@ == old(self).installed@,
            final(self).results@ == old(self).results@,
    {
        self.tab = match self.tab {
            StoreTab::Installed => StoreTab::Browse,
            StoreTab::Browse => StoreTab::Installed,
        };
        self.selected = 0;
    }

    /// Move the selection by `delta`, staying among the rows.
    pub fn move_sel(&mut self, delta: isize)
        ensures
            final(self).selected == moved(old(self).selected, delta, rows_spec(*old(self)).len() as int),
            final(self).tab == old(self).tab,
            final(self).installed@ == old(self).installed@,
            final(self).results@ == old(self).results@,
    {
        let len = self.rows().len();
        if len == 0 {
            self.selected = 0;
            return;
        }
        let cur: i128 = self.selected as i128 + delta as i128;
        self.selected = if cur < 0 {
            0
        } else if cur > (len - 1) as i128 {
            len - 1
        } else {
            cur as usize
        };
    }

    /// Start typing a live search.
    pub fn begin_input(&mut self)
        ensures
            final(self).tab == StoreTab::Browse,
            final(self).input,
            final(self).message@ == "live search · results update as you type · Enter to browse · Esc"@,
            final(self).query@ == old(self).query@,
    {
        self.tab = StoreTab::Browse;
        self.input = true;
        self.message = own("live search · results update as you type · Enter to browse · Esc");
    }

    /// Type a character into the query at time `now`.
    pub fn input_char(&mut self, c: char, now: u64)
        ensures
            final(self).query@ == old(self).query@.push(c),
            final(self).dirty_since == Some(now),
            final(self).last_searched@ == old(self).last_searched@,
    {
        push_char(&mut self.query, c);
        self.dirty_since = Some(now);
    }

    /// Delete the query's last character at time `now`.
    pub fn input_backspace(&mut self, now: u64)
        ensures
            final(self).query@ == if old(self).query@.len() > 0 {
                old(self).query@.drop_last()
            } else {
                old(self).query@
            },
            final(self).dirty_since == Some(now),
            final(self).last_searched@ == old(self).last_searched@,
    {
        let cs = chars_of(self.query.as_str());
        if cs.len() > 0 {
            let kept = crate::text::slice_vec(cs.as_slice(), 0, cs.len() - 1);
            self.query = string_of(kept.as_slice());
            assert(self.query@ =~= old(self).query@.drop_last());
        }
        self.dirty_since = Some(now);
    }

    /// Leave the query field; query and results stay.
    pub fn cancel_input(&mut self)
        ensures
            !final(self).input,
            final(self).query@ == old(self).query@,
    {
        self.input = false;
    }

    /// Is a live search due at time `now`?
    pub fn search_due(&self, now: u64) -> (b: bool)
        ensures
            b == search_due_spec(*self, now),
    {
        let q = trim_chars(chars_of(self.query.as_str()).as_slice());
        if q.len() == 0 {
            return false;
        }
        let last = chars_of(self.last_searched.as_str());
        if crate::text::chars_eq(q.as_slice(), last.as_slice()) {
            return false;
        }
        match self.dirty_since {
            Some(t) => now >= t && now - t >= SEARCH_DEBOUNCE_MS,
            None => false,
        }
    }

    /// The search for the current query went out.
    pub fn mark_searched(&mut self)
        ensures
            final(self).last_searched@ == trimmed(old(self).query@),
            final(self).dirty_since is None,
            final(self).query@ == old(self).query@,
    {
        let q = trim_chars(chars_of(self.query.as_str()).as_slice());
        self.last_searched = string_of(q.as_slice());
        self.dirty_since = None;
    }

    /// A background job started; its results are awaited.
    pub fn begin_job(&mut self, note: &str)
        ensures
            final(self).waiting,
            final(self).loading,
            final(self).message@ == note@,
    {
        self.waiting = true;
        self.loading = true;
        self.message = own(note);
    }

    fn apply(&mut self, m: StoreMsg)
        ensures
            final(self).message@ == msg_text(m),
            !final(self).loading,
            final(self).waiting == old(self).waiting,
            match m {
                StoreMsg::Results(items) => final(self).results@ == items@ && final(self).selected == 0
                    && final(self).just_installed == old(self).just_installed,
                StoreMsg::Installed { .. } => final(self).just_installed && final(self).results@ == old(self).results@
                    && final(self).selected == old(self).selected,
                StoreMsg::Error(_) => final(self).results@ == old(self).results@ && final(self).selected == old(
                    self,
                ).selected && final(self).just_installed == old(self).just_installed,
            },
    {
        match m {
            StoreMsg::Results(items) => {
                let n = items.len();
                self.results = items;
                self.selected = 0;
                self.loading = false;
                let mut msg = decimal_string(n);
                push_str(&mut msg, " result(s) · Enter to install");
                self.message = msg;
            },
            StoreMsg::Installed { id, version } => {
                self.loading = false;
                self.just_installed = true;
                let mut msg = own("installed ");
                push_str(&mut msg, id.as_str());
                push_str(&mut msg, " v");
                push_str(&mut msg, version.as_str());
                push_str(&mut msg, " — loading…");
                self.message = msg;
            },
            StoreMsg::Error(e) => {
                self.loading = false;
                let mut msg = own("error: ");
                push_str(&mut msg, e.as_str());
                self.message = msg;
            },
        }
    }

    /// Take what a job delivered, in order; `disconnected` says the job is
    /// gone. Returns whether anything changed. The job stops being awaited
    /// when it is gone or nothing is loading any more.
    pub fn poll(&mut self, msgs: Vec<StoreMsg>, disconnected: bool) -> (changed: bool)
        ensures
            !old(self).waiting ==> !changed && final(self).results@ == old(self).results@ && final(self).message@
                == old(self).message@ && final(self).loading == old(self).loading && !final(self).waiting,
            old(self).waiting ==> {
                &&& changed == (msgs@.len() > 0)
                &&& msgs@.len() > 0 ==> final(self).message@ == msg_text(msgs@.last()) && !final(self).loading
                &&& msgs@.len() == 0 && disconnected ==> !final(self).loading
                &&& msgs@.len() == 0 && !disconnected ==> final(self).loading == old(self).loading
                &&& final(self).waiting == (!disconnected && final(self).loading)
            },
    {
        if !self.waiting {
            return false;
        }
        let mut msgs = msgs;
        let ghost all = msgs@;
        let total: usize = msgs.len();
        let mut applied: usize = 0;
        while msgs.len() > 0
            invariant
                self.waiting,
                applied + msgs@.len() == all.len(),
                all.len() == total,
                msgs@ == all.subrange(applied as int, all.len() as int),
                applied > 0 ==> self.message@ == msg_text(all[applied - 1]) && !self.loading,
                applied == 0 ==> self.loading == old(self).loading && self.message@ == old(self).message@,
            decreases msgs@.len(),
        {
            let m = msgs.remove(0);
            assert(m == all[applied as int]);
            self.apply(m);
            applied += 1;
        }
        if disconnected {
            self.waiting = false;
            self.loading = false;
        }
        if self.waiting && !self.loading {
            self.waiting = false;
        }
        applied > 0
    }
}

impl Default for PluginStore {
    fn default() -> (s: Self)
        ensures
            !s.open,
            s.tab == StoreTab::Installed,
            s.selected == 0,
            !s.waiting,
    {
        PluginStore::new()
    }
}

} // verus!
