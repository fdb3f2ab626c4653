//! Which terminal sessions run, and the modes of their terminals.
use vstd::prelude::*;

use crate::paths;
use crate::paths::FilePath;

verus! {

// ---------------------------------------------------------------------------
// Sessions
// ---------------------------------------------------------------------------

/// A terminal session of a worktree.
#[derive(Debug)]
pub struct PtySession {
    /// The worktree that it runs in.
    pub path: FilePath,
    /// Whether the user is dragging the mouse to select text.
    pub selection_dragging: bool,
}

/// The running terminal sessions.
#[derive(Debug)]
pub struct PtyManager {
    /// The program that sessions run.
    pub shell: String,
    pub sessions: Vec<PtySession>,
}

#[verifier::ext_equal]
pub struct PtySessionView {
    pub path: Seq<u8>,
    pub selection_dragging: bool,
}

#[verifier::ext_equal]
pub struct PtyManagerView {
    pub shell: Seq<char>,
    pub sessions: Seq<PtySessionView>,
}

impl View for PtySession {
    type V = PtySessionView;

    open spec fn view(&self) -> PtySessionView {
        PtySessionView { path: self.path@, selection_dragging: self.selection_dragging }
    }
}

impl View for PtyManager {
    type V = PtyManagerView;

    open spec fn view(&self) -> PtyManagerView {
        PtyManagerView {
            shell: self.shell@,
            sessions: self.sessions@.map_values(|s: PtySession| s@),
        }
    }
}

/// The first session of the worktree, or the number of sessions.
pub open spec fn session_index(sessions: Seq<PtySessionView>, path: Seq<u8>) -> int
    decreases sessions.len(),
{
    if sessions.len() == 0 || paths::same_path(sessions[0].path, path) {
        0
    } else {
        1 + session_index(sessions.drop_first(), path)
    }
}

impl PtyManagerView {
    /// Where the session of the worktree is.
    pub open spec fn index_of(self, path: Seq<u8>) -> int {
        session_index(self.sessions, path)
    }

    /// Whether the worktree has a session.
    pub open spec fn has(self, path: Seq<u8>) -> bool {
        self.index_of(path) < self.sessions.len()
    }

    /// Whether the user is selecting text in the session of the worktree.
    pub open spec fn is_dragging(self, path: Seq<u8>) -> bool {
        self.has(path) && self.sessions[self.index_of(path)].selection_dragging
    }

    /// The sessions with that of the worktree marked as dragging or not.
    pub open spec fn with_dragging(self, path: Seq<u8>, dragging: bool) -> Self {
        if self.has(path) {
            let i = self.index_of(path);
            PtyManagerView {
                sessions: self.sessions.update(
                    i,
                    PtySessionView { selection_dragging: dragging, ..self.sessions[i] },
                ),
                ..self
            }
        } else {
            self
        }
    }

    /// The sessions with one for the worktree.
    pub open spec fn with_session(self, path: Seq<u8>) -> Self {
        if self.has(path) {
            self
        } else {
            PtyManagerView {
                sessions: self.sessions.push(PtySessionView { path, selection_dragging: false }),
                ..self
            }
        }
    }

    /// The sessions without that of the worktree.
    pub open spec fn without_session(self, path: Seq<u8>) -> Self {
        if self.has(path) {
            PtyManagerView { sessions: self.sessions.remove(self.index_of(path)), ..self }
        } else {
            self
        }
    }

    /// Whether no worktree has two sessions.
    pub open spec fn well_formed(self) -> bool {
        forall|i: int, j: int|
            0 <= i < j < self.sessions.len() ==> !paths::same_path(
                (#[trigger] self.sessions[i]).path,
                (#[trigger] self.sessions[j]).path,
            )
    }
}

impl PtyManager {
    /// No sessions yet.
    pub fn new(shell: String) -> (r: Self)
        ensures
            r@ == (PtyManagerView { shell: shell@, sessions: Seq::empty() }),
    {
        let r = PtyManager { shell, sessions: Vec::new() };
        assert(r@.sessions =~= Seq::empty());
        r
    }

    pub fn has_any_sessions(&self) -> (r: bool)
        ensures
            r == (self@.sessions.len() > 0),
    {
        self.sessions.len() > 0
    }

    /// Where the session of the worktree is.
    pub fn position(&self, path: &FilePath) -> (r: Option<usize>)
        ensures
            match r {
                Some(i) => i as int == self@.index_of(path@) && i < self.sessions.len(),
                None => !self@.has(path@),
            },
    {
        let ghost all = self@.sessions;
        let mut i: usize = 0;
        assert(all.skip(0) =~= all);
        while i < self.sessions.len()
            invariant
                i <= self.sessions.len(),
                all == self@.sessions,
                session_index(all, path@) == i + session_index(all.skip(i as int), path@),
            decreases self.sessions.len() - i,
        {
            assert(all.skip(i as int)[0] == self.sessions@[i as int]@);
            if paths::paths_equal(&self.sessions[i].path, path) {
                return Some(i);
            }
            assert(all.skip(i as int).drop_first() =~= all.skip(i + 1));
            i += 1;
        }
        None
    }

    /// Whether the worktree has a session.
    pub fn has_session(&self, path: &FilePath) -> (r: bool)
        ensures
            r == self@.has(path@),
    {
        self.position(path).is_some()
    }

    /// Whether the user is selecting text in the session of the worktree.
    pub fn is_dragging(&self, path: &FilePath) -> (r: bool)
        ensures
            r == self@.is_dragging(path@),
    {
        match self.position(path) {
            Some(i) => self.sessions[i].selection_dragging,
            None => false,
        }
    }

    /// Marks the session of the worktree as dragging or not; tells whether
    /// there is one.
    pub fn set_dragging(&mut self, path: &FilePath, dragging: bool) -> (r: bool)
        ensures
            r == old(self)@.has(path@),
            final(self)@ == old(self)@.with_dragging(path@, dragging),
    {
        let ghost before = self@;
        match self.position(path) {
            Some(i) => {
                self.sessions[i].selection_dragging = dragging;
                assert(self@.sessions =~= before.with_dragging(path@, dragging).sessions);
                true
            },
            None => false,
        }
    }

    /// Records that the worktree has a session.
    pub fn register(&mut self, path: &FilePath)
        ensures
            final(self)@ == old(self)@.with_session(path@),
    {
        let ghost before = self@;
        if self.position(path).is_none() {
            self.sessions.push(PtySession { path: path.clone(), selection_dragging: false });
            assert(self@.sessions =~= before.with_session(path@).sessions);
        }
    }

    /// Forgets the session of the worktree.
    pub fn remove(&mut self, path: &FilePath)
        ensures
            final(self)@ == old(self)@.without_session(path@),
    {
        let ghost before = self@;
        if let Some(i) = self.position(path) {
            self.sessions.remove(i);
            assert(self@.sessions =~= before.without_session(path@).sessions);
        }
    }
}

// ---------------------------------------------------------------------------
// Laws
// ---------------------------------------------------------------------------

/// `session_index` points at the first session of the worktree, or past the
/// end.
proof fn session_index_facts(sessions: Seq<PtySessionView>, path: Seq<u8>)
    ensures
        0 <= session_index(sessions, path) <= sessions.len(),
        session_index(sessions, path) < sessions.len() ==> paths::same_path(
            sessions[session_index(sessions, path)].path,
            path,
        ),
        forall|i: int|
            0 <= i < session_index(sessions, path) ==> !paths::same_path(
                (#[trigger] sessions[i]).path,
                path,
            ),
    decreases sessions.len(),
{
    if sessions.len() > 0 && !paths::same_path(sessions[0].path, path) {
        let rest = sessions.drop_first();
        session_index_facts(rest, path);
        assert forall|i: int| 0 <= i < session_index(sessions, path) implies !paths::same_path(
            (#[trigger] sessions[i]).path,
            path,
        ) by {
            if i > 0 {
                assert(sessions[i] == rest[i - 1]);
            }
        }
    }
}

/// No operation gives a worktree a second session.
pub proof fn one_session_for_each_worktree(m: PtyManagerView, path: Seq<u8>, dragging: bool)
    requires
        m.well_formed(),
    ensures
        m.with_session(path).well_formed(),
        m.without_session(path).well_formed(),
        m.with_dragging(path, dragging).well_formed(),
{
    session_index_facts(m.sessions, path);
    let k = m.index_of(path);
    let added = m.with_session(path).sessions;
    assert forall|i: int, j: int| 0 <= i < j < added.len() implies !paths::same_path(
        (#[trigger] added[i]).path,
        (#[trigger] added[j]).path,
    ) by {
        if j < m.sessions.len() {
            assert(!paths::same_path(m.sessions[i].path, m.sessions[j].path));
        } else {
            assert(!paths::same_path(m.sessions[i].path, path));
        }
    }
    let fewer = m.without_session(path).sessions;
    assert forall|i: int, j: int| 0 <= i < j < fewer.len() implies !paths::same_path(
        (#[trigger] fewer[i]).path,
        (#[trigger] fewer[j]).path,
    ) by {
        let a = if m.has(path) && i >= k {
            i + 1
        } else {
            i
        };
        let b = if m.has(path) && j >= k {
            j + 1
        } else {
            j
        };
        assert(fewer[i] == m.sessions[a]);
        assert(fewer[j] == m.sessions[b]);
        assert(!paths::same_path(m.sessions[a].path, m.sessions[b].path));
    }
    let marked = m.with_dragging(path, dragging).sessions;
    assert forall|i: int, j: int| 0 <= i < j < marked.len() implies !paths::same_path(
        (#[trigger] marked[i]).path,
        (#[trigger] marked[j]).path,
    ) by {
        assert(!paths::same_path(m.sessions[i].path, m.sessions[j].path));
    }
}

/// Marking a session as dragging or not ends no session and starts none.
pub proof fn dragging_keeps_sessions(
    m: PtyManagerView,
    path: Seq<u8>,
    dragging: bool,
    other: Seq<u8>,
)
    ensures
        m.with_dragging(path, dragging).has(other) == m.has(other),
        m.with_dragging(path, dragging).index_of(other) == m.index_of(other),
{
    session_index_facts(m.sessions, path);
    index_ignores_dragging(m.sessions, m.with_dragging(path, dragging).sessions, other);
}

/// Where a session is depends on the paths alone.
proof fn index_ignores_dragging(
    a: Seq<PtySessionView>,
    b: Seq<PtySessionView>,
    path: Seq<u8>,
)
    requires
        a.len() == b.len(),
        forall|i: int| 0 <= i < a.len() ==> (#[trigger] a[i]).path == b[i].path,
    ensures
        session_index(a, path) == session_index(b, path),
    decreases a.len(),
{
    if a.len() > 0 {
        assert(a[0].path == b[0].path);
        let ra = a.drop_first();
        let rb = b.drop_first();
        assert forall|i: int| 0 <= i < ra.len() implies (#[trigger] ra[i]).path == rb[i].path by {
            assert(a[i + 1].path == b[i + 1].path);
        }
        index_ignores_dragging(ra, rb, path);
    }
}

/// The session of a worktree is the first with its path, and a worktree has a
/// session exactly where some session has its path. Marking that session leaves
/// all others as they are.
pub proof fn session_is_where_it_is_found(m: PtyManagerView, path: Seq<u8>)
    ensures
        0 <= m.index_of(path) <= m.sessions.len(),
        m.has(path) <==> exists|i: int|
            0 <= i < m.sessions.len() && paths::same_path((#[trigger] m.sessions[i]).path, path),
        m.has(path) ==> paths::same_path(m.sessions[m.index_of(path)].path, path),
        forall|dragging: bool|
            #![trigger m.with_dragging(path, dragging)]
            {
                let n = m.with_dragging(path, dragging);
                &&& n.shell == m.shell
                &&& n.sessions.len() == m.sessions.len()
                &&& m.has(path) ==> n.is_dragging(path) == dragging
                &&& forall|i: int|
                    0 <= i < m.sessions.len() ==> (#[trigger] n.sessions[i]).path
                        == m.sessions[i].path && (i != m.index_of(path) ==> n.sessions[i]
                        == m.sessions[i])
            },
{
    session_index_facts(m.sessions, path);
    assert forall|dragging: bool| #![trigger m.with_dragging(path, dragging)] {
        let n = m.with_dragging(path, dragging);
        &&& n.shell == m.shell
        &&& n.sessions.len() == m.sessions.len()
        &&& m.has(path) ==> n.is_dragging(path) == dragging
        &&& forall|i: int|
            0 <= i < m.sessions.len() ==> (#[trigger] n.sessions[i]).path == m.sessions[i].path
                && (i != m.index_of(path) ==> n.sessions[i] == m.sessions[i])
    } by {
        dragging_keeps_sessions(m, path, dragging, path);
    }
}

/// Removing the session of a worktree ends no session of another.
pub proof fn removing_ends_one_session(m: PtyManagerView, path: Seq<u8>, other: Seq<u8>)
    requires
        !paths::same_path(path, other),
    ensures
        m.without_session(path).has(other) == m.has(other),
        m.without_session(path).shell == m.shell,
{
    let n = m.without_session(path);
    session_index_facts(m.sessions, path);
    session_index_facts(m.sessions, other);
    session_index_facts(n.sessions, other);
    if m.has(path) {
        let k = m.index_of(path);
        if m.has(other) {
            let i = m.index_of(other);
            assert(i != k) by {
                if i == k {
                    paths::same_path_equivalence(m.sessions[k].path, path, path);
                    paths::same_path_equivalence(path, m.sessions[k].path, other);
                }
            }
            if i < k {
                assert(n.sessions[i] == m.sessions[i]);
            } else {
                assert(n.sessions[i - 1] == m.sessions[i]);
            }
        }
        if n.has(other) {
            let i = n.index_of(other);
            if i < k {
                assert(n.sessions[i] == m.sessions[i]);
            } else {
                assert(n.sessions[i] == m.sessions[i + 1]);
            }
        }
    }
}

/// A worktree whose session was opened has one; a worktree whose session was
/// removed has none.
pub proof fn sessions_come_and_go(m: PtyManagerView, path: Seq<u8>)
    requires
        m.well_formed(),
    ensures
        m.with_session(path).has(path),
        !m.without_session(path).has(path),
{
    session_index_facts(m.sessions, path);
    let added = m.with_session(path).sessions;
    session_index_facts(added, path);
    paths::same_path_equivalence(path, path, path);
    if !m.has(path) {
        assert(added[m.sessions.len() as int].path == path);
    }
    let fewer = m.without_session(path).sessions;
    session_index_facts(fewer, path);
    if m.has(path) && m.without_session(path).has(path) {
        let k = m.index_of(path);
        let i = session_index(fewer, path);
        if i < k {
            assert(fewer[i] == m.sessions[i]);
        } else {
            assert(fewer[i] == m.sessions[i + 1]);
            paths::same_path_equivalence(m.sessions[k].path, path, m.sessions[i + 1].path);
            paths::same_path_equivalence(m.sessions[i + 1].path, path, path);
        }
    }
}

// ---------------------------------------------------------------------------
// Terminal modes
// ---------------------------------------------------------------------------

/// Arrow keys are sent in their application form.
pub const APP_CURSOR: u32 = 2;

/// Pasted text is marked as such.
pub const BRACKETED_PASTE: u32 = 16;

/// Mouse reports are sent in the SGR form.
pub const SGR_MOUSE: u32 = 32;

/// The alternate screen is shown.
pub const ALT_SCREEN: u32 = 4096;

/// The program wants mouse reports: clicks, motion or drags.
pub const MOUSE_MODE: u32 = 8 | 64 | 8192;

/// Whether a terminal's mode has all of the flags:
/// `alacritty_terminal::term::TermMode::contains` on modes made from their
/// bits. `TermMode` has a flag of all bits, so `from_bits_truncate` drops none.
#[verifier::external_body]
pub(crate) fn mode_contains(mode: u32, flags: u32) -> (r: bool)
    ensures
        r == (mode & flags == flags),
{
    alacritty_terminal::term::TermMode::from_bits_truncate(mode).contains(
        alacritty_terminal::term::TermMode::from_bits_truncate(flags),
    )
}

/// Whether a terminal's mode has any of the flags:
/// `alacritty_terminal::term::TermMode::intersects` on modes made from their
/// bits. `TermMode` has a flag of all bits, so `from_bits_truncate` drops none.
#[verifier::external_body]
pub(crate) fn mode_intersects(mode: u32, flags: u32) -> (r: bool)
    ensures
        r == (mode & flags != 0),
{
    alacritty_terminal::term::TermMode::from_bits_truncate(mode).intersects(
        alacritty_terminal::term::TermMode::from_bits_truncate(flags),
    )
}

} // verus!
