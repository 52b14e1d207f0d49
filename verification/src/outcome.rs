//! Rows of the batch output table: what each row is about, its status, its
//! versions and its notes.
use vstd::prelude::*;

use crate::domain::{ManagerId, PackageName, VersionText};

verus! {

#[derive(Debug, Clone, Copy, PartialEq, Eq, Structural)]
pub enum OutcomeStatusView {
    Current,
    Update,
    Delayed,
    Blocked,
    Skipped,
    Error,
}

/// Whether a row or note shows in normal output or only with `--verbose`.
#[derive(Debug, Clone, Copy, PartialEq, Eq, Structural)]
pub enum OutcomeVisibility {
    Always,
    VerboseOnly,
}

/// One note of a row.
#[derive(Debug)]
pub struct OutcomeNote {
    pub text: String,
    pub visibility: OutcomeVisibility,
}

pub struct NoteView {
    pub text: Seq<char>,
    pub visibility: OutcomeVisibility,
}

impl View for OutcomeNote {
    type V = NoteView;

    open spec fn view(&self) -> NoteView {
        NoteView { text: self.text@, visibility: self.visibility }
    }
}

impl OutcomeNote {
    /// A note shown in normal output.
    pub fn normal(text: String) -> (r: Self)
        ensures
            r@ == (NoteView { text: text@, visibility: OutcomeVisibility::Always }),
    {
        OutcomeNote { text, visibility: OutcomeVisibility::Always }
    }

    pub fn with_visibility(self, visibility: OutcomeVisibility) -> (r: Self)
        ensures
            r@ == (NoteView { visibility, ..self@ }),
    {
        OutcomeNote { visibility, ..self }
    }
}

/// The version a row moves to.
#[derive(Debug)]
pub enum OutcomeTargetView {
    Known(VersionText),
    ManagerResolved,
}

/// Which side of a version change the row stresses.
#[derive(Debug, Clone, Copy, PartialEq, Eq, Structural)]
pub enum OutcomeVersionEmphasis {
    Current,
    Target,
}

/// The versions a row shows.
#[derive(Debug)]
pub enum OutcomeVersionsView {
    Current { version: VersionText },
    Change { from: VersionText, to: OutcomeTargetView, emphasis: OutcomeVersionEmphasis },
}

impl OutcomeVersionsView {
    /// A move from the installed version to a known target.
    pub fn change(from: VersionText, to: VersionText) -> (r: Self)
        ensures
            r == (OutcomeVersionsView::Change {
                from,
                to: OutcomeTargetView::Known(to),
                emphasis: OutcomeVersionEmphasis::Target,
            }),
    {
        OutcomeVersionsView::Change {
            from,
            to: OutcomeTargetView::Known(to),
            emphasis: OutcomeVersionEmphasis::Target,
        }
    }

    /// A move to whatever the manager's resolver picks.
    pub fn manager_resolved(from: VersionText) -> (r: Self)
        ensures
            r == (OutcomeVersionsView::Change {
                from,
                to: OutcomeTargetView::ManagerResolved,
                emphasis: OutcomeVersionEmphasis::Target,
            }),
    {
        OutcomeVersionsView::Change {
            from,
            to: OutcomeTargetView::ManagerResolved,
            emphasis: OutcomeVersionEmphasis::Target,
        }
    }
}

/// What a row is about: a whole manager, or one of its packages.
#[derive(Debug)]
pub enum OutcomeSubjectView {
    Manager(ManagerId),
    Item { manager_id: ManagerId, package_name: PackageName, versions: OutcomeVersionsView },
}

/// One row of the output table.
#[derive(Debug)]
pub struct OutcomeRow {
    pub status: OutcomeStatusView,
    pub subject: OutcomeSubjectView,
    pub notes: Vec<OutcomeNote>,
    pub visibility: OutcomeVisibility,
}

pub struct RowView {
    pub status: OutcomeStatusView,
    pub subject: OutcomeSubjectView,
    pub notes: Seq<NoteView>,
    pub visibility: OutcomeVisibility,
}

pub open spec fn notes_view(v: Seq<OutcomeNote>) -> Seq<NoteView> {
    v.map_values(|n: OutcomeNote| n@)
}

impl View for OutcomeRow {
    type V = RowView;

    open spec fn view(&self) -> RowView {
        RowView {
            status: self.status,
            subject: self.subject,
            notes: notes_view(self.notes@),
            visibility: self.visibility,
        }
    }
}

impl OutcomeRow {
    /// A row about a whole manager.
    pub fn manager(status: OutcomeStatusView, manager_id: ManagerId) -> (r: Self)
        ensures
            r@ == (RowView {
                status,
                subject: OutcomeSubjectView::Manager(manager_id),
                notes: Seq::empty(),
                visibility: OutcomeVisibility::Always,
            }),
    {
        let r = OutcomeRow {
            status,
            subject: OutcomeSubjectView::Manager(manager_id),
            notes: Vec::new(),
            visibility: OutcomeVisibility::Always,
        };
        assert(notes_view(r.notes@) =~= Seq::<NoteView>::empty());
        r
    }

    /// A row about one package of a manager.
    pub fn item(
        status: OutcomeStatusView,
        manager_id: ManagerId,
        package_name: PackageName,
        versions: OutcomeVersionsView,
    ) -> (r: Self)
        ensures
            r@ == (RowView {
                status,
                subject: OutcomeSubjectView::Item { manager_id, package_name, versions },
                notes: Seq::empty(),
                visibility: OutcomeVisibility::Always,
            }),
    {
        let r = OutcomeRow {
            status,
            subject: OutcomeSubjectView::Item { manager_id, package_name, versions },
            notes: Vec::new(),
            visibility: OutcomeVisibility::Always,
        };
        assert(notes_view(r.notes@) =~= Seq::<NoteView>::empty());
        r
    }

    /// The row with one more note at the end.
    pub fn with_note(self, note: OutcomeNote) -> (r: Self)
        ensures
            r@ == (RowView { notes: self@.notes.push(note@), ..self@ }),
    {
        let OutcomeRow { status, subject, mut notes, visibility } = self;
        let ghost before = notes@;
        let ghost nv = note@;
        notes.push(note);
        assert(notes_view(notes@) =~= notes_view(before).push(nv));
        OutcomeRow { status, subject, notes, visibility }
    }

    pub fn with_visibility(self, visibility: OutcomeVisibility) -> (r: Self)
        ensures
            r@ == (RowView { visibility, ..self@ }),
    {
        OutcomeRow { visibility, ..self }
    }
}

/// The output table.
#[derive(Debug)]
pub struct OutcomeTable {
    pub rows: Vec<OutcomeRow>,
}

impl OutcomeTable {
    pub fn new(rows: Vec<OutcomeRow>) -> (r: Self)
        ensures
            r.rows == rows,
    {
        OutcomeTable { rows }
    }
}

// ---------------------------------------------------------------------------
// What the output shows
// ---------------------------------------------------------------------------

/// A row or note with this visibility shows in output of this verbosity.
pub open spec fn shows(visibility: OutcomeVisibility, verbose: bool) -> bool {
    verbose || visibility == OutcomeVisibility::Always
}

/// The notes that show, in order.
pub open spec fn shown_notes(notes: Seq<NoteView>, verbose: bool) -> Seq<NoteView>
    decreases notes.len(),
{
    if notes.len() == 0 {
        Seq::empty()
    } else {
        let head = shown_notes(notes.drop_last(), verbose);
        if shows(notes.last().visibility, verbose) {
            head.push(notes.last())
        } else {
            head
        }
    }
}

/// The rows that show, in order, each with the notes that show.
pub open spec fn shown_rows(rows: Seq<RowView>, verbose: bool) -> Seq<RowView>
    decreases rows.len(),
{
    if rows.len() == 0 {
        Seq::empty()
    } else {
        let head = shown_rows(rows.drop_last(), verbose);
        let r = rows.last();
        if shows(r.visibility, verbose) {
            head.push(RowView { notes: shown_notes(r.notes, verbose), ..r })
        } else {
            head
        }
    }
}

pub open spec fn table_rows(v: Seq<OutcomeRow>) -> Seq<RowView> {
    v.map_values(|r: OutcomeRow| r@)
}

fn shown_note_list(notes: Vec<OutcomeNote>, verbose: bool) -> (r: Vec<OutcomeNote>)
    ensures
        notes_view(r@) == shown_notes(notes_view(notes@), verbose),
{
    let ghost all = notes@;
    let mut rest = notes;
    let total: usize = rest.len();
    let mut out: Vec<OutcomeNote> = Vec::new();
    let mut i: usize = 0;
    while rest.len() > 0
        invariant
            all.len() == total,
            i + rest@.len() == all.len(),
            rest@ == all.skip(i as int),
            notes_view(out@) == shown_notes(notes_view(all.take(i as int)), verbose),
        decreases rest@.len(),
    {
        let ghost before = rest@;
        let n = rest.remove(0);
        assert(before[0] == all[i as int]);
        assert(rest@ =~= all.skip(i + 1));
        let ghost t = notes_view(all.take(i + 1));
        assert(t.drop_last() =~= notes_view(all.take(i as int)));
        assert(t.last() == n@);
        if verbose || n.visibility == OutcomeVisibility::Always {
            let ghost prev = notes_view(out@);
            let ghost nv = n@;
            out.push(n);
            assert(notes_view(out@) =~= prev.push(nv));
        }
        i = i + 1;
    }
    assert(all.take(all.len() as int) =~= all);
    out
}

/// The table as output of this verbosity shows it: rows shown only with
/// `--verbose` are left out otherwise, and so are such notes.
pub fn shown_table(table: OutcomeTable, verbose: bool) -> (r: OutcomeTable)
    ensures
        table_rows(r.rows@) == shown_rows(table_rows(table.rows@), verbose),
{
    let ghost all = table.rows@;
    let mut rest = table.rows;
    let total: usize = rest.len();
    let mut out: Vec<OutcomeRow> = Vec::new();
    let mut i: usize = 0;
    while rest.len() > 0
        invariant
            all.len() == total,
            i + rest@.len() == all.len(),
            rest@ == all.skip(i as int),
            table_rows(out@) == shown_rows(table_rows(all.take(i as int)), verbose),
        decreases rest@.len(),
    {
        let ghost before = rest@;
        let row = rest.remove(0);
        assert(before[0] == all[i as int]);
        assert(rest@ =~= all.skip(i + 1));
        let ghost t = table_rows(all.take(i + 1));
        assert(t.drop_last() =~= table_rows(all.take(i as int)));
        assert(t.last() == row@);
        if verbose || row.visibility == OutcomeVisibility::Always {
            let ghost prev = table_rows(out@);
            let ghost rv = row@;
            let OutcomeRow { status, subject, notes, visibility } = row;
            let kept = OutcomeRow { status, subject, notes: shown_note_list(notes, verbose), visibility };
            let ghost kv = kept@;
            assert(kv == (RowView { notes: shown_notes(rv.notes, verbose), ..rv }));
            out.push(kept);
            assert(table_rows(out@) =~= prev.push(kv));
        }
        i = i + 1;
    }
    assert(all.take(all.len() as int) =~= all);
    OutcomeTable { rows: out }
}

} // verus!
