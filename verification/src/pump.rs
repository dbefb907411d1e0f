//! The language-service pump's decisions: what each arrival from the
//! language server, the debugger or the build does to the editor's state,
//! and which surfaces it leaves stale. The caller drains the services, hands
//! each arrival here, and performs the action that comes back.

use vstd::prelude::*;
use crate::text::{chars_of, string_of, own, str_eq, has_prefix};

verus! {

/// Which surfaces a pump call left stale.
#[derive(Clone, Copy, Debug, Default, PartialEq, Eq, Structural)]
pub struct PumpChange {
    /// Editor-band paint is stale: diagnostics, semantic tokens, inlay hints.
    pub paint: bool,
    /// Shell chrome is stale: diagnostic counts, tabs, palette, status.
    pub chrome: bool,
}

impl PumpChange {
    /// Anything at all to repaint.
    pub fn any(self) -> (b: bool)
        ensures
            b == (self.paint || self.chrome),
    {
        self.paint || self.chrome
    }

    /// Both surfaces stale when either change says so.
    pub fn join(self, other: PumpChange) -> (c: PumpChange)
        ensures
            c.paint == (self.paint || other.paint),
            c.chrome == (self.chrome || other.chrome),
    {
        PumpChange { paint: self.paint || other.paint, chrome: self.chrome || other.chrome }
    }
}

/// Cap on hover text handed to the face, in characters: bounded because a
/// doc comment can be arbitrarily long, and generous because a keyword's
/// guide runs to a couple of thousand characters with its examples.
pub const HOVER_CHARS: usize = 4000;

/// One completion in the list on screen.
#[derive(Clone, Debug)]
pub struct Suggestion {
    pub label: String,
    pub detail: String,
    pub insert_text: String,
}

/// A place a reference was found.
#[derive(Clone, Debug)]
pub struct RefLocation {
    pub path: String,
    pub row: usize,
    pub col: usize,
}

/// What the pump reads and changes of the editor.
#[derive(Clone, Debug)]
pub struct PumpState {
    /// The hover card's text.
    pub hover_text: Option<String>,
    /// The status line.
    pub message: String,
    /// Whether the completion list is on screen.
    pub completions_active: bool,
    pub suggestions: Vec<Suggestion>,
    /// The references panel's list, which the panel polls until it is read.
    pub references: Vec<RefLocation>,
    pub references_ready: bool,
    /// A save held for the formatter: the buffer version it asked about.
    pub pending_save: Option<u64>,
    /// The formatter has answered the held save.
    pub formatting_answered: bool,
}

/// One arrival from the services, as the caller drained it.
pub enum ServiceEvent {
    /// A server message, or the value extent, changed what the editor band
    /// paints.
    Repaint,
    /// The build moved: its state, or its output, or both.
    Build { state_changed: bool, lines_changed: bool },
    /// The debugger stopped somewhere new.
    DebugStopped,
    /// Server completions: label and detail.
    Completions(Vec<(String, Option<String>)>),
    /// A definition answer.
    Definition,
    /// Document or workspace symbols.
    Symbols,
    /// A hover answer.
    Hover(String),
    /// Multi-file edits, with the buffer's version now.
    Edits { version: u64 },
    /// The formatter answered the held save.
    FormatterAnswered,
    /// The moment the held save has waited its limit.
    SaveTimedOut,
    /// A workspace-edit note.
    WorkspaceNote(String),
    /// Code actions to offer.
    CodeActions,
    /// An advisory error.
    SoftError(String),
    /// Diagnostics, the server's state or the build's file moved.
    Revisions,
}

/// What the caller must do for an arrival.
#[derive(Clone, Copy, Debug, PartialEq, Eq, Structural)]
pub enum PumpAction {
    Nothing,
    ApplyDefinition,
    ApplyStoppedLocation,
    ApplySymbols,
    ApplyEdits,
    SaveFile,
    OpenCodeActions,
}

/// At most the first `n` characters of `s`.
pub open spec fn first_n(s: Seq<char>, n: nat) -> Seq<char> {
    if s.len() <= n { s } else { s.take(n as int) }
}

/// A suggestion as values.
pub open spec fn sugg_view(s: Suggestion) -> (Seq<char>, Seq<char>, Seq<char>) {
    (s.label@, s.detail@, s.insert_text@)
}

pub open spec fn suggs_view(v: Seq<Suggestion>) -> Seq<(Seq<char>, Seq<char>, Seq<char>)> {
    v.map_values(|s: Suggestion| sugg_view(s))
}

/// Server completions as values.
pub open spec fn items_view(v: Seq<(String, Option<String>)>) -> Seq<(Seq<char>, Option<Seq<char>>)> {
    v.map_values(|i: (String, Option<String>)| (i.0@, match i.1 { Some(d) => Some(d@), None => None }))
}

/// Server completions merged into the list, in order: one whose label is
/// already listed is dropped, and a missing detail reads `LSP`.
pub open spec fn merged(list: Seq<(Seq<char>, Seq<char>, Seq<char>)>, items: Seq<(Seq<char>, Option<Seq<char>>)>) -> Seq<(Seq<char>, Seq<char>, Seq<char>)>
    decreases items.len(),
{
    if items.len() == 0 {
        list
    } else {
        let m = merged(list, items.drop_last());
        let it = items.last();
        if exists|k: int| 0 <= k < m.len() && (#[trigger] m[k]).0 == it.0 {
            m
        } else {
            m.push((it.0, match it.1 { Some(d) => d, None => "LSP"@ }, it.0))
        }
    }
}

/// The status message replaces nothing the reader has not seen: it lands
/// when the line is empty or shows work in progress.
pub open spec fn message_free(m: Seq<char>) -> bool {
    m.len() == 0 || m.last() == '…'
}

/// What the pump leaves besides what the event changes.
pub open spec fn kept(a: PumpState, b: PumpState) -> bool {
    &&& b.references@ == a.references@
    &&& b.references_ready == a.references_ready
    &&& b.completions_active == a.completions_active
}

/// Whether a pending save was asked about a version other than `version`
/// after the formatter answered: the edits describe a document that no
/// longer exists.
pub open spec fn stale_edits(st: PumpState, version: u64) -> bool {
    st.formatting_answered && match st.pending_save {
        Some(v) => v != version,
        None => false,
    }
}

fn merge_into(list: &mut Vec<Suggestion>, items: Vec<(String, Option<String>)>)
    ensures
        suggs_view(final(list)@) == merged(suggs_view(old(list)@), items_view(items@)),
{
    let ghost l0 = suggs_view(list@);
    let ghost iv = items_view(items@);
    let mut k: usize = 0;
    while k < items.len()
        invariant
            k <= items@.len(),
            iv == items_view(items@),
            suggs_view(list@) == merged(l0, iv.take(k as int)),
        decreases items@.len() - k,
    {
        assert(iv.take(k + 1).drop_last() =~= iv.take(k as int));
        assert(iv.take(k + 1).last() == iv[k as int]);
        let label = &items[k].0;
        let mut found = false;
        let mut j: usize = 0;
        while j < list.len() && !found
            invariant
                j <= list@.len(),
                !found ==> forall|q: int| 0 <= q < j ==> (#[trigger] suggs_view(list@)[q]).0 != label@,
                found ==> exists|q: int| 0 <= q < list@.len() && (#[trigger] suggs_view(list@)[q]).0 == label@,
            decreases list@.len() - j + (if found { 0int } else { 1int }),
        {
            if str_eq(list[j].label.as_str(), label.as_str()) {
                found = true;
                assert(suggs_view(list@)[j as int].0 == label@);
            } else {
                j += 1;
            }
        }
        if !found {
            let detail = match &items[k].1 {
                Some(d) => d.clone(),
                None => own("LSP"),
            };
            let ghost before = suggs_view(list@);
            list.push(Suggestion { label: label.clone(), detail, insert_text: label.clone() });
            assert(suggs_view(list@) =~= before.push((label@, iv[k as int].1.unwrap_or("LSP"@), label@)));
        }
        k += 1;
    }
    assert(iv.take(items@.len() as int) =~= iv);
}

fn capped(s: &str) -> (r: String)
    ensures
        r@ == first_n(s@, HOVER_CHARS as nat),
{
    let v = chars_of(s);
    if v.len() <= HOVER_CHARS {
        return string_of(v.as_slice());
    }
    let mut out: Vec<char> = Vec::new();
    let mut i: usize = 0;
    while i < HOVER_CHARS
        invariant
            i <= HOVER_CHARS,
            HOVER_CHARS < v@.len(),
            out@ == v@.take(i as int),
        decreases HOVER_CHARS - i,
    {
        out.push(v[i]);
        assert(out@ =~= v@.take(i + 1));
        i += 1;
    }
    string_of(out.as_slice())
}

fn ends_with_ellipsis(s: &str) -> (b: bool)
    ensures
        b == (s@.len() > 0 && s@.last() == '…'),
{
    let v = chars_of(s);
    v.len() > 0 && v[v.len() - 1] == '…'
}

/// Apply one arrival to the pump's state; returns what it left stale and
/// what the caller must do.
///
/// A hover answer lands capped at `HOVER_CHARS` characters. Completions merge
/// into the list only while it is on screen. Edits are applied unless the
/// save they were held for was asked about another version, in which case
/// the status line says so. A held save goes through when the formatter
/// answers, or unformatted when it has waited too long. A workspace note is
/// shown unless it is an edit payload; an advisory error only where it
/// replaces nothing unread. The references list is never touched: the panel
/// reads it for as long as it is open.
pub fn on_service_event(st: &mut PumpState, ev: ServiceEvent) -> (r: (PumpChange, PumpAction))
    ensures
        kept(*old(st), *final(st)),
        match ev {
            ServiceEvent::Repaint => r == (PumpChange { paint: true, chrome: false }, PumpAction::Nothing)
                && *final(st) == *old(st),
            ServiceEvent::Build { state_changed, lines_changed } => r == (
                PumpChange { paint: state_changed, chrome: state_changed || lines_changed },
                PumpAction::Nothing,
            ) && *final(st) == *old(st),
            ServiceEvent::DebugStopped => r == (PumpChange { paint: true, chrome: true }, PumpAction::ApplyStoppedLocation)
                && *final(st) == *old(st),
            ServiceEvent::Completions(items) => {
                let on = old(st).completions_active && items@.len() > 0;
                &&& r == (PumpChange { paint: false, chrome: on }, PumpAction::Nothing)
                &&& suggs_view(final(st).suggestions@) == (if on {
                    merged(suggs_view(old(st).suggestions@), items_view(items@))
                } else {
                    suggs_view(old(st).suggestions@)
                })
                &&& final(st).hover_text == old(st).hover_text
                &&& final(st).message == old(st).message
                &&& final(st).pending_save == old(st).pending_save
                &&& final(st).formatting_answered == old(st).formatting_answered
            },
            ServiceEvent::Definition => r == (PumpChange { paint: true, chrome: true }, PumpAction::ApplyDefinition)
                && *final(st) == *old(st),
            ServiceEvent::Symbols => r == (PumpChange { paint: false, chrome: true }, PumpAction::ApplySymbols)
                && *final(st) == *old(st),
            ServiceEvent::Hover(text) => {
                &&& r == (PumpChange { paint: false, chrome: true }, PumpAction::Nothing)
                &&& final(st).hover_text matches Some(h) && h@ == first_n(text@, HOVER_CHARS as nat)
                &&& final(st).message == old(st).message
                &&& final(st).suggestions == old(st).suggestions
                &&& final(st).pending_save == old(st).pending_save
                &&& final(st).formatting_answered == old(st).formatting_answered
            },
            ServiceEvent::Edits { version } => {
                &&& r == (PumpChange { paint: true, chrome: true }, if stale_edits(*old(st), version) {
                    PumpAction::Nothing
                } else {
                    PumpAction::ApplyEdits
                })
                &&& final(st).message@ == (if stale_edits(*old(st), version) {
                    "Kept typing while formatting — saved as typed"@
                } else {
                    old(st).message@
                })
                &&& final(st).hover_text == old(st).hover_text
                &&& final(st).suggestions == old(st).suggestions
                &&& final(st).pending_save == old(st).pending_save
                &&& final(st).formatting_answered == old(st).formatting_answered
            },
            ServiceEvent::FormatterAnswered => {
                &&& r == (if old(st).pending_save is Some {
                    (PumpChange { paint: true, chrome: true }, PumpAction::SaveFile)
                } else {
                    (PumpChange { paint: false, chrome: false }, PumpAction::Nothing)
                })
                &&& final(st).pending_save is None
                &&& !final(st).formatting_answered
                &&& final(st).hover_text == old(st).hover_text
                &&& final(st).message == old(st).message
                &&& final(st).suggestions == old(st).suggestions
            },
            ServiceEvent::SaveTimedOut => {
                &&& r == (if old(st).pending_save is Some {
                    (PumpChange { paint: true, chrome: true }, PumpAction::SaveFile)
                } else {
                    (PumpChange { paint: false, chrome: false }, PumpAction::Nothing)
                })
                &&& final(st).pending_save is None
                &&& final(st).message@ == (if old(st).pending_save is Some {
                    "Formatter did not answer — saved unformatted"@
                } else {
                    old(st).message@
                })
                &&& final(st).formatting_answered == old(st).formatting_answered
                &&& final(st).hover_text == old(st).hover_text
                &&& final(st).suggestions == old(st).suggestions
            },
            ServiceEvent::WorkspaceNote(msg) => {
                let shown = !has_prefix(msg@, "APPLY\n"@);
                &&& r == (PumpChange { paint: false, chrome: shown }, PumpAction::Nothing)
                &&& final(st).message@ == (if shown { msg@ } else { old(st).message@ })
                &&& final(st).hover_text == old(st).hover_text
                &&& final(st).suggestions == old(st).suggestions
                &&& final(st).pending_save == old(st).pending_save
                &&& final(st).formatting_answered == old(st).formatting_answered
            },
            ServiceEvent::CodeActions => r == (PumpChange { paint: false, chrome: true }, PumpAction::OpenCodeActions)
                && *final(st) == *old(st),
            ServiceEvent::SoftError(msg) => {
                let shown = message_free(old(st).message@);
                &&& r == (PumpChange { paint: false, chrome: shown }, PumpAction::Nothing)
                &&& final(st).message@ == (if shown { msg@ } else { old(st).message@ })
                &&& final(st).hover_text == old(st).hover_text
                &&& final(st).suggestions == old(st).suggestions
                &&& final(st).pending_save == old(st).pending_save
                &&& final(st).formatting_answered == old(st).formatting_answered
            },
            ServiceEvent::Revisions => r == (PumpChange { paint: true, chrome: true }, PumpAction::Nothing)
                && *final(st) == *old(st),
        },
{
    match ev {
        ServiceEvent::Repaint => (PumpChange { paint: true, chrome: false }, PumpAction::Nothing),
        ServiceEvent::Build { state_changed, lines_changed } => (
            PumpChange { paint: state_changed, chrome: state_changed || lines_changed },
            PumpAction::Nothing,
        ),
        ServiceEvent::DebugStopped => (PumpChange { paint: true, chrome: true }, PumpAction::ApplyStoppedLocation),
        ServiceEvent::Completions(items) => {
            if st.completions_active && items.len() > 0 {
                merge_into(&mut st.suggestions, items);
                (PumpChange { paint: false, chrome: true }, PumpAction::Nothing)
            } else {
                (PumpChange { paint: false, chrome: false }, PumpAction::Nothing)
            }
        },
        ServiceEvent::Definition => (PumpChange { paint: true, chrome: true }, PumpAction::ApplyDefinition),
        ServiceEvent::Symbols => (PumpChange { paint: false, chrome: true }, PumpAction::ApplySymbols),
        ServiceEvent::Hover(text) => {
            st.hover_text = Some(capped(text.as_str()));
            (PumpChange { paint: false, chrome: true }, PumpAction::Nothing)
        },
        ServiceEvent::Edits { version } => {
            let stale = st.formatting_answered && match st.pending_save {
                Some(v) => v != version,
                None => false,
            };
            if stale {
                st.message = own("Kept typing while formatting — saved as typed");
                (PumpChange { paint: true, chrome: true }, PumpAction::Nothing)
            } else {
                (PumpChange { paint: true, chrome: true }, PumpAction::ApplyEdits)
            }
        },
        ServiceEvent::FormatterAnswered => {
            st.formatting_answered = false;
            if st.pending_save.is_some() {
                st.pending_save = None;
                (PumpChange { paint: true, chrome: true }, PumpAction::SaveFile)
            } else {
                (PumpChange { paint: false, chrome: false }, PumpAction::Nothing)
            }
        },
        ServiceEvent::SaveTimedOut => {
            if st.pending_save.is_some() {
                st.pending_save = None;
                st.message = own("Formatter did not answer — saved unformatted");
                (PumpChange { paint: true, chrome: true }, PumpAction::SaveFile)
            } else {
                (PumpChange { paint: false, chrome: false }, PumpAction::Nothing)
            }
        },
        ServiceEvent::WorkspaceNote(msg) => {
            let m = chars_of(msg.as_str());
            let p = chars_of("APPLY\n");
            if !crate::text::starts_with(m.as_slice(), p.as_slice()) {
                st.message = msg;
                (PumpChange { paint: false, chrome: true }, PumpAction::Nothing)
            } else {
                (PumpChange { paint: false, chrome: false }, PumpAction::Nothing)
            }
        },
        ServiceEvent::CodeActions => (PumpChange { paint: false, chrome: true }, PumpAction::OpenCodeActions),
        ServiceEvent::SoftError(msg) => {
            let free = st.message.as_str().is_empty() || ends_with_ellipsis(st.message.as_str());
            proof {
                assert(st.message@.len() == 0 ==> st.message@ =~= Seq::<char>::empty());
            }
            if free {
                st.message = msg;
                (PumpChange { paint: false, chrome: true }, PumpAction::Nothing)
            } else {
                (PumpChange { paint: false, chrome: false }, PumpAction::Nothing)
            }
        },
        ServiceEvent::Revisions => (PumpChange { paint: true, chrome: true }, PumpAction::Nothing),
    }
}

} // verus!
