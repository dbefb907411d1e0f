//! The editor's yank store. A copy also goes to the system clipboard, and a
//! paste prefers a non-empty system clipboard (another application may have
//! set it since the last yank) over the last in-editor yank. The clipboard
//! itself is the caller's to read and write; this store decides.

use vstd::prelude::*;
use crate::text::{chars_of, own};

verus! {

/// Yanked text, and whether it was whole lines.
#[derive(Clone, Debug, Default)]
pub struct RegisterValue {
    pub text: String,
    pub linewise: bool,
}

/// The single yank store.
#[derive(Clone, Debug, Default)]
pub struct Registers {
    /// The last yank or delete made inside the editor.
    last: Option<RegisterValue>,
}

/// A stored value as text and line mode.
pub open spec fn value_view(v: Option<RegisterValue>) -> Option<(Seq<char>, bool)> {
    match v {
        Some(r) => Some((r.text@, r.linewise)),
        None => None,
    }
}

/// Clipboard text counts as whole lines when it holds a line break.
pub open spec fn clip_linewise(s: Seq<char>) -> bool {
    s.contains('\n')
}

/// What a paste takes: a non-empty clipboard, else the last yank.
pub open spec fn put_spec(sys: Option<Seq<char>>, last: Option<(Seq<char>, bool)>) -> Option<(Seq<char>, bool)> {
    match sys {
        Some(s) => if s.len() > 0 {
            Some((s, clip_linewise(s)))
        } else {
            last
        },
        None => last,
    }
}

fn has_newline(s: &str) -> (b: bool)
    ensures
        b == s@.contains('\n'),
{
    let cs = chars_of(s);
    let mut i: usize = 0;
    while i < cs.len()
        invariant
            i <= cs@.len(),
            cs@ == s@,
            forall|j: int| 0 <= j < i ==> cs@[j] != '\n',
        decreases cs@.len() - i,
    {
        if cs[i] == '\n' {
            assert(cs@[i as int] == '\n');
            return true;
        }
        i += 1;
    }
    false
}

impl Registers {
    /// The last in-editor yank.
    pub closed spec fn last_view(&self) -> Option<(Seq<char>, bool)> {
        value_view(self.last)
    }

    pub fn new() -> (r: Self)
        ensures
            r.last_view() is None,
    {
        Registers { last: None }
    }

    /// Label for the status line: there is one store, the clipboard.
    pub fn active_label(&self) -> (s: String)
        ensures
            s@ == "clipboard"@,
    {
        own("clipboard")
    }

    /// Remember a yank or delete. The caller also puts `text` on the system
    /// clipboard.
    pub fn store(&mut self, text: String, linewise: bool)
        ensures
            final(self).last_view() == Some((text@, linewise)),
    {
        self.last = Some(RegisterValue { text, linewise });
    }

    /// The text to paste, given what the system clipboard holds (`None`
    /// when it could not be read).
    pub fn load_for_put(&self, sys: Option<String>) -> (r: Option<RegisterValue>)
        ensures
            value_view(r) == put_spec(
                match sys {
                    Some(s) => Some(s@),
                    None => None,
                },
                self.last_view(),
            ),
    {
        if let Some(sys) = sys {
            if chars_of(sys.as_str()).len() > 0 {
                let linewise = has_newline(sys.as_str());
                return Some(RegisterValue { text: sys, linewise });
            }
        }
        match &self.last {
            Some(v) => Some(RegisterValue { text: own(v.text.as_str()), linewise: v.linewise }),
            None => None,
        }
    }

    /// The last in-editor yank's text.
    pub fn unnamed_text(&self) -> (r: Option<&str>)
        ensures
            match r {
                Some(t) => self.last_view() is Some && t@ == (self.last_view()->0).0,
                None => self.last_view() is None,
            },
    {
        match &self.last {
            Some(v) => Some(v.text.as_str()),
            None => None,
        }
    }
}

/// A paste after a yank always has something to give, whatever the
/// clipboard holds.
pub proof fn law_put_after_store(sys: Option<Seq<char>>, text: Seq<char>, linewise: bool)
    ensures
        put_spec(sys, Some((text, linewise))) is Some,
        (sys is None || sys->0.len() == 0) ==> put_spec(sys, Some((text, linewise))) == Some((text, linewise)),
{
}

} // verus!
