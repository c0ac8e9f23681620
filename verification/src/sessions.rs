//! Capture-source and recording-session bookkeeping.
//!
//! The recorder keeps its state in one explicit manager object owned by
//! the caller, not in process-wide globals: every operation is a method
//! on `SessionManager`, and entries are kept in insertion order, keyed by
//! their id, so walking them is deterministic.

use vstd::prelude::*;

verus! {

/// One display the screen recorder can capture.
#[derive(Clone, Debug)]
pub struct MonitorInfo {
    pub id: String,
    pub name: String,
    pub x: i32,
    pub y: i32,
    pub width: u32,
    pub height: u32,
    pub is_primary: bool,
}

/// One configured capture region: a monitor or webcam with its placement.
#[derive(Clone, Debug)]
pub struct CaptureSource {
    pub id: String,
    pub name: String,
    /// What is captured: a monitor or a webcam.
    pub source_type: String,
    pub device_id: String,
    pub x: i32,
    pub y: i32,
    pub width: u32,
    pub height: u32,
    pub is_active: bool,
}

/// One recording in progress or finished.
#[derive(Clone, Debug)]
pub struct RecordingSession {
    pub id: String,
    pub output_path: String,
    /// Process id of the external recorder, when one was started.
    pub process_id: Option<u32>,
    /// What is being recorded: the screen, a webcam, or both.
    pub recording_type: String,
    pub is_active: bool,
}

/// First position holding a source with the given id.
pub open spec fn source_index(s: Seq<CaptureSource>, id: Seq<char>) -> Option<int>
    decreases s.len(),
{
    if s.len() == 0 {
        None
    } else if s.first().id@ == id {
        Some(0int)
    } else {
        match source_index(s.drop_first(), id) {
            None => None,
            Some(i) => Some(i + 1),
        }
    }
}

/// First position holding an active session of the given type.
pub open spec fn active_session_index(s: Seq<RecordingSession>, ty: Seq<char>) -> Option<int>
    decreases s.len(),
{
    if s.len() == 0 {
        None
    } else if s.first().is_active && s.first().recording_type@ == ty {
        Some(0int)
    } else {
        match active_session_index(s.drop_first(), ty) {
            None => None,
            Some(i) => Some(i + 1),
        }
    }
}

pub proof fn lemma_source_index_spec(s: Seq<CaptureSource>, id: Seq<char>)
    ensures
        match source_index(s, id) {
            None => forall|k: int| 0 <= k < s.len() ==> (#[trigger] s[k]).id@ != id,
            Some(i) => 0 <= i < s.len() && s[i].id@ == id && forall|k: int|
                0 <= k < i ==> (#[trigger] s[k]).id@ != id,
        },
    decreases s.len(),
{
    if s.len() > 0 && s.first().id@ != id {
        let rest = s.drop_first();
        lemma_source_index_spec(rest, id);
        assert(forall|k: int| 0 <= k < rest.len() ==> #[trigger] rest[k] == s[k + 1]);
        match source_index(rest, id) {
            None => {
                assert forall|k: int| 0 <= k < s.len() implies (#[trigger] s[k]).id@
                    != id by {
                    if k > 0 {
                        assert(rest[k - 1].id@ != id);
                    }
                }
            },
            Some(i) => {
                assert(rest[i].id@ == id);
                assert forall|k: int| 0 <= k < i + 1 implies (#[trigger] s[k]).id@ != id by {
                    if k > 0 {
                        assert(rest[k - 1].id@ != id);
                    }
                }
            },
        }
    }
}

pub proof fn lemma_active_session_index_spec(s: Seq<RecordingSession>, ty: Seq<char>)
    ensures
        match active_session_index(s, ty) {
            None => forall|k: int|
                0 <= k < s.len() ==> !((#[trigger] s[k]).is_active && s[k].recording_type@
                    == ty),
            Some(i) => 0 <= i < s.len() && s[i].is_active && s[i].recording_type@ == ty
                && forall|k: int|
                0 <= k < i ==> !((#[trigger] s[k]).is_active && s[k].recording_type@ == ty),
        },
    decreases s.len(),
{
    if s.len() > 0 && !(s.first().is_active && s.first().recording_type@ == ty) {
        let rest = s.drop_first();
        lemma_active_session_index_spec(rest, ty);
        assert(forall|k: int| 0 <= k < rest.len() ==> #[trigger] rest[k] == s[k + 1]);
        match active_session_index(rest, ty) {
            None => {
                assert forall|k: int| 0 <= k < s.len() implies !((#[trigger] s[k]).is_active
                    && s[k].recording_type@ == ty) by {
                    if k > 0 {
                        assert(!(rest[k - 1].is_active && rest[k - 1].recording_type@ == ty));
                    }
                }
            },
            Some(i) => {
                assert forall|k: int| 0 <= k < i + 1 implies !((#[trigger] s[k]).is_active
                    && s[k].recording_type@ == ty) by {
                    if k > 0 {
                        assert(!(rest[k - 1].is_active && rest[k - 1].recording_type@ == ty));
                    }
                }
            },
        }
    }
}

/// No two sources share an id.
pub open spec fn unique_source_ids(s: Seq<CaptureSource>) -> bool {
    forall|i: int, j: int|
        0 <= i < j < s.len() ==> (#[trigger] s[i]).id@ != (#[trigger] s[j]).id@
}

/// No two sessions share an id.
pub open spec fn unique_session_ids(s: Seq<RecordingSession>) -> bool {
    forall|i: int, j: int|
        0 <= i < j < s.len() ==> (#[trigger] s[i]).id@ != (#[trigger] s[j]).id@
}

proof fn lemma_source_update_unique(s: Seq<CaptureSource>, i: int, v: CaptureSource)
    requires
        unique_source_ids(s),
        0 <= i < s.len(),
        v.id@ == s[i].id@,
    ensures
        unique_source_ids(s.update(i, v)),
{
    let r = s.update(i, v);
    assert forall|a: int, b: int| 0 <= a < b < r.len() implies (#[trigger] r[a]).id@ != (
    #[trigger] r[b]).id@ by {
        assert(s[a].id@ != s[b].id@);
    }
}

proof fn lemma_source_push_unique(s: Seq<CaptureSource>, v: CaptureSource)
    requires
        unique_source_ids(s),
        forall|k: int| 0 <= k < s.len() ==> (#[trigger] s[k]).id@ != v.id@,
    ensures
        unique_source_ids(s.push(v)),
{
    let r = s.push(v);
    assert forall|a: int, b: int| 0 <= a < b < r.len() implies (#[trigger] r[a]).id@ != (
    #[trigger] r[b]).id@ by {
        if b < s.len() {
            assert(s[a].id@ != s[b].id@);
        } else {
            assert(s[a].id@ != v.id@);
        }
    }
}

proof fn lemma_source_remove_unique(s: Seq<CaptureSource>, i: int)
    requires
        unique_source_ids(s),
        0 <= i < s.len(),
    ensures
        unique_source_ids(s.remove(i)),
{
    let r = s.remove(i);
    assert forall|a: int, b: int| 0 <= a < b < r.len() implies (#[trigger] r[a]).id@ != (
    #[trigger] r[b]).id@ by {
        let a0 = if a < i { a } else { a + 1 };
        let b0 = if b < i { b } else { b + 1 };
        assert(r[a] == s[a0] && r[b] == s[b0]);
        assert(s[a0].id@ != s[b0].id@);
    }
}

proof fn lemma_session_update_unique(s: Seq<RecordingSession>, i: int, v: RecordingSession)
    requires
        unique_session_ids(s),
        0 <= i < s.len(),
        v.id@ == s[i].id@,
    ensures
        unique_session_ids(s.update(i, v)),
{
    let r = s.update(i, v);
    assert forall|a: int, b: int| 0 <= a < b < r.len() implies (#[trigger] r[a]).id@ != (
    #[trigger] r[b]).id@ by {
        assert(s[a].id@ != s[b].id@);
    }
}

proof fn lemma_session_push_unique(s: Seq<RecordingSession>, v: RecordingSession)
    requires
        unique_session_ids(s),
        forall|k: int| 0 <= k < s.len() ==> (#[trigger] s[k]).id@ != v.id@,
    ensures
        unique_session_ids(s.push(v)),
{
    let r = s.push(v);
    assert forall|a: int, b: int| 0 <= a < b < r.len() implies (#[trigger] r[a]).id@ != (
    #[trigger] r[b]).id@ by {
        if b < s.len() {
            assert(s[a].id@ != s[b].id@);
        } else {
            assert(s[a].id@ != v.id@);
        }
    }
}

/// The capture sources and recording sessions of one recorder, keyed by
/// id, in insertion order.
pub struct SessionManager {
    sources: Vec<CaptureSource>,
    sessions: Vec<RecordingSession>,
}

impl SessionManager {
    /// The configured capture sources, in insertion order.
    pub closed spec fn spec_sources(&self) -> Seq<CaptureSource> {
        self.sources@
    }

    /// The known recording sessions, in insertion order.
    pub closed spec fn spec_sessions(&self) -> Seq<RecordingSession> {
        self.sessions@
    }

    /// Ids are unique on both lists.
    pub open spec fn wf(&self) -> bool {
        unique_source_ids(self.spec_sources()) && unique_session_ids(self.spec_sessions())
    }

    /// An empty manager.
    pub fn new() -> (r: SessionManager)
        ensures
            r.spec_sources() == Seq::<CaptureSource>::empty(),
            r.spec_sessions() == Seq::<RecordingSession>::empty(),
            r.wf(),
    {
        let r = SessionManager { sources: Vec::new(), sessions: Vec::new() };
        proof {
            assert(r.spec_sources() =~= Seq::<CaptureSource>::empty());
            assert(r.spec_sessions() =~= Seq::<RecordingSession>::empty());
        }
        r
    }

    /// Position of the source with this id, if any.
    #[verifier::loop_isolation(false)]
    fn find_source(&self, id: &String) -> (r: Option<usize>)
        ensures
            match r {
                Some(i) => source_index(self.spec_sources(), id@) == Some(i as int),
                None => source_index(self.spec_sources(), id@) is None,
            },
    {
        proof {
            lemma_source_index_spec(self.spec_sources(), id@);
        }
        let mut i: usize = 0;
        while i < self.sources.len()
            invariant
                0 <= i <= self.spec_sources().len(),
                forall|k: int|
                    0 <= k < i ==> (#[trigger] self.spec_sources()[k]).id@ != id@,
            decreases self.spec_sources().len() - i,
        {
            if self.sources[i].id == *id {
                proof {
                    match source_index(self.spec_sources(), id@) {
                        Some(m) => {
                            assert(m == i) by {
                                if m < i {
                                    assert(self.spec_sources()[m].id@ != id@);
                                }
                            }
                        },
                        None => {
                            assert(self.spec_sources()[i as int].id@ != id@);
                        },
                    }
                }
                return Some(i);
            }
            i = i + 1;
        }
        proof {
            match source_index(self.spec_sources(), id@) {
                Some(m) => {
                    assert(self.spec_sources()[m].id@ != id@);
                },
                None => {},
            }
        }
        None
    }

    /// Registers a capture source: a new id is appended, a known id has
    /// its entry replaced, as a map insert would.
    pub fn add_source(&mut self, source: CaptureSource)
        requires
            old(self).wf(),
        ensures
            final(self).wf(),
            final(self).spec_sessions() == old(self).spec_sessions(),
            match source_index(old(self).spec_sources(), source.id@) {
                Some(i) => final(self).spec_sources() == old(self).spec_sources().update(
                    i,
                    source,
                ),
                None => final(self).spec_sources() == old(self).spec_sources().push(source),
            },
    {
        proof {
            lemma_source_index_spec(self.spec_sources(), source.id@);
        }
        let ghost s_old = self.spec_sources();
        match self.find_source(&source.id) {
            Some(i) => {
                proof {
                    lemma_source_update_unique(s_old, i as int, source);
                }
                self.sources.set(i, source);
            },
            None => {
                proof {
                    lemma_source_push_unique(s_old, source);
                }
                self.sources.push(source);
            },
        }
    }

    /// Creates a capture source under a fresh random id, active from the
    /// start, registers it and hands the id back.
    pub fn add_capture_source(
        &mut self,
        source_type: String,
        device_id: String,
        name: String,
        x: i32,
        y: i32,
        width: u32,
        height: u32,
    ) -> (id: String)
        requires
            old(self).wf(),
        ensures
            final(self).wf(),
            final(self).spec_sessions() == old(self).spec_sessions(),
            id@.len() == 36,
            ({
                let source = CaptureSource {
                    id: id,
                    name: name,
                    source_type: source_type,
                    device_id: device_id,
                    x: x,
                    y: y,
                    width: width,
                    height: height,
                    is_active: true,
                };
                match source_index(old(self).spec_sources(), id@) {
                    Some(i) => final(self).spec_sources() == old(self).spec_sources().update(
                        i,
                        source,
                    ),
                    None => final(self).spec_sources() == old(self).spec_sources().push(
                        source,
                    ),
                }
            }),
    {
        let id = new_capture_id();
        let source = CaptureSource {
            id: id.clone(),
            name,
            source_type,
            device_id,
            x,
            y,
            width,
            height,
            is_active: true,
        };
        self.add_source(source);
        id
    }

    /// Moves and resizes the source with this id; reports whether it was
    /// found, leaving everything unchanged when not.
    pub fn update_source_position(
        &mut self,
        id: &String,
        x: i32,
        y: i32,
        width: u32,
        height: u32,
    ) -> (found: bool)
        requires
            old(self).wf(),
        ensures
            final(self).wf(),
            final(self).spec_sessions() == old(self).spec_sessions(),
            match source_index(old(self).spec_sources(), id@) {
                Some(i) => {
                    &&& found
                    &&& final(self).spec_sources() == old(self).spec_sources().update(
                        i,
                        CaptureSource {
                            x,
                            y,
                            width,
                            height,
                            ..old(self).spec_sources()[i]
                        },
                    )
                },
                None => !found && final(self).spec_sources() == old(self).spec_sources(),
            },
    {
        proof {
            lemma_source_index_spec(self.spec_sources(), id@);
        }
        let ghost s_old = self.spec_sources();
        match self.find_source(id) {
            Some(i) => {
                proof {
                    lemma_source_index_spec(s_old, id@);
                }
                let cur = &self.sources[i];
                let updated = CaptureSource {
                    id: cur.id.clone(),
                    name: cur.name.clone(),
                    source_type: cur.source_type.clone(),
                    device_id: cur.device_id.clone(),
                    x,
                    y,
                    width,
                    height,
                    is_active: cur.is_active,
                };
                proof {
                    lemma_source_update_unique(s_old, i as int, updated);
                }
                self.sources.set(i, updated);
                true
            },
            None => false,
        }
    }

    /// Removes the source with this id; reports whether it was found.
    pub fn remove_source(&mut self, id: &String) -> (found: bool)
        requires
            old(self).wf(),
        ensures
            final(self).wf(),
            final(self).spec_sessions() == old(self).spec_sessions(),
            match source_index(old(self).spec_sources(), id@) {
                Some(i) => found && final(self).spec_sources() == old(
                    self,
                ).spec_sources().remove(i),
                None => !found && final(self).spec_sources() == old(self).spec_sources(),
            },
    {
        let ghost s_old = self.spec_sources();
        match self.find_source(id) {
            Some(i) => {
                proof {
                    lemma_source_index_spec(s_old, id@);
                    lemma_source_remove_unique(s_old, i as int);
                }
                self.sources.remove(i);
                true
            },
            None => false,
        }
    }

    /// Read access to the capture sources, in insertion order.
    pub fn sources(&self) -> (r: &Vec<CaptureSource>)
        ensures
            r@ == self.spec_sources(),
    {
        &self.sources
    }

    /// Read access to the recording sessions, in insertion order.
    pub fn sessions(&self) -> (r: &Vec<RecordingSession>)
        ensures
            r@ == self.spec_sessions(),
    {
        &self.sessions
    }

    /// Records a started session under its id, replacing any entry that
    /// already carries it.
    #[verifier::loop_isolation(false)]
    pub fn start_session(&mut self, session: RecordingSession)
        requires
            old(self).wf(),
        ensures
            final(self).wf(),
            final(self).spec_sources() == old(self).spec_sources(),
            match session_index(old(self).spec_sessions(), session.id@) {
                Some(i) => final(self).spec_sessions() == old(self).spec_sessions().update(
                    i,
                    session,
                ),
                None => final(self).spec_sessions() == old(self).spec_sessions().push(
                    session,
                ),
            },
    {
        proof {
            lemma_session_index_spec(self.spec_sessions(), session.id@);
        }
        let mut i: usize = 0;
        let n = self.sessions.len();
        while i < n
            invariant
                0 <= i <= self.spec_sessions().len(),
                n == self.spec_sessions().len(),
                forall|k: int|
                    0 <= k < i ==> (#[trigger] self.spec_sessions()[k]).id@ != session.id@,
                self.spec_sessions() == old(self).spec_sessions(),
                self.spec_sources() == old(self).spec_sources(),
                self.wf(),
            decreases self.spec_sessions().len() - i,
        {
            if self.sessions[i].id == session.id {
                proof {
                    match session_index(self.spec_sessions(), session.id@) {
                        Some(m) => {
                            assert(m == i) by {
                                if m < i {
                                    assert(self.spec_sessions()[m].id@ != session.id@);
                                }
                            }
                        },
                        None => {
                            assert(self.spec_sessions()[i as int].id@ != session.id@);
                        },
                    }
                }
                proof {
                    lemma_session_update_unique(self.spec_sessions(), i as int, session);
                }
                self.sessions.set(i, session);
                return;
            }
            i = i + 1;
        }
        proof {
            match session_index(self.spec_sessions(), session.id@) {
                Some(m) => {
                    assert(self.spec_sessions()[m].id@ != session.id@);
                },
                None => {},
            }
        }
        proof {
            lemma_session_index_spec(self.spec_sessions(), session.id@);
            lemma_session_push_unique(self.spec_sessions(), session);
        }
        self.sessions.push(session);
    }

    /// Stops the first active session of the given type: marks it
    /// inactive and hands back its id and recorder process id, or `None`
    /// when no such session runs. The caller terminates the process.
    #[verifier::loop_isolation(false)]
    pub fn stop_session(&mut self, recording_type: &String) -> (r: Option<(String, Option<u32>)>)
        requires
            old(self).wf(),
        ensures
            final(self).wf(),
            final(self).spec_sources() == old(self).spec_sources(),
            match active_session_index(old(self).spec_sessions(), recording_type@) {
                Some(i) => {
                    &&& r matches Some(stopped)
                    &&& stopped.0 == old(self).spec_sessions()[i].id
                    &&& stopped.1 == old(self).spec_sessions()[i].process_id
                    &&& final(self).spec_sessions() == old(self).spec_sessions().update(
                        i,
                        RecordingSession { is_active: false, ..old(self).spec_sessions()[i] },
                    )
                },
                None => r is None && final(self).spec_sessions() == old(
                    self,
                ).spec_sessions(),
            },
    {
        proof {
            lemma_active_session_index_spec(self.spec_sessions(), recording_type@);
        }
        let mut i: usize = 0;
        let n = self.sessions.len();
        while i < n
            invariant
                0 <= i <= self.spec_sessions().len(),
                n == self.spec_sessions().len(),
                forall|k: int|
                    0 <= k < i ==> !((#[trigger] self.spec_sessions()[k]).is_active
                        && self.spec_sessions()[k].recording_type@ == recording_type@),
                self.spec_sessions() == old(self).spec_sessions(),
                self.spec_sources() == old(self).spec_sources(),
                self.wf(),
            decreases self.spec_sessions().len() - i,
        {
            if self.sessions[i].is_active && self.sessions[i].recording_type
                == *recording_type {
                proof {
                    match active_session_index(self.spec_sessions(), recording_type@) {
                        Some(m) => {
                            assert(m == i) by {
                                if m < i {
                                    assert(!(self.spec_sessions()[m].is_active
                                        && self.spec_sessions()[m].recording_type@
                                        == recording_type@));
                                }
                            }
                        },
                        None => {
                            assert(!(self.spec_sessions()[i as int].is_active
                                && self.spec_sessions()[i as int].recording_type@
                                == recording_type@));
                        },
                    }
                }
                let cur = &self.sessions[i];
                let id = cur.id.clone();
                let pid = cur.process_id;
                let stopped = RecordingSession {
                    id: cur.id.clone(),
                    output_path: cur.output_path.clone(),
                    process_id: cur.process_id,
                    recording_type: cur.recording_type.clone(),
                    is_active: false,
                };
                proof {
                    lemma_session_update_unique(self.spec_sessions(), i as int, stopped);
                }
                self.sessions.set(i, stopped);
                return Some((id, pid));
            }
            i = i + 1;
        }
        proof {
            match active_session_index(self.spec_sessions(), recording_type@) {
                Some(m) => {
                    assert(!(self.spec_sessions()[m].is_active
                        && self.spec_sessions()[m].recording_type@ == recording_type@));
                },
                None => {},
            }
        }
        None
    }
}

/// Relies on `uuid::Uuid::new_v4` rendered through `Display`, which the
/// crate documents as the hyphenated lower-case form: 36 ASCII
/// characters. The value is random; nothing relates one call to another.
#[verifier::external_body]
fn new_capture_id() -> (r: String)
    ensures
        r@.len() == 36,
{
    uuid::Uuid::new_v4().to_string()
}

/// First position holding a session with the given id.
pub open spec fn session_index(s: Seq<RecordingSession>, id: Seq<char>) -> Option<int>
    decreases s.len(),
{
    if s.len() == 0 {
        None
    } else if s.first().id@ == id {
        Some(0int)
    } else {
        match session_index(s.drop_first(), id) {
            None => None,
            Some(i) => Some(i + 1),
        }
    }
}

pub proof fn lemma_session_index_spec(s: Seq<RecordingSession>, id: Seq<char>)
    ensures
        match session_index(s, id) {
            None => forall|k: int| 0 <= k < s.len() ==> (#[trigger] s[k]).id@ != id,
            Some(i) => 0 <= i < s.len() && s[i].id@ == id && forall|k: int|
                0 <= k < i ==> (#[trigger] s[k]).id@ != id,
        },
    decreases s.len(),
{
    if s.len() > 0 && s.first().id@ != id {
        let rest = s.drop_first();
        lemma_session_index_spec(rest, id);
        assert(forall|k: int| 0 <= k < rest.len() ==> #[trigger] rest[k] == s[k + 1]);
        match session_index(rest, id) {
            None => {
                assert forall|k: int| 0 <= k < s.len() implies (#[trigger] s[k]).id@
                    != id by {
                    if k > 0 {
                        assert(rest[k - 1].id@ != id);
                    }
                }
            },
            Some(i) => {
                assert(rest[i].id@ == id);
                assert forall|k: int| 0 <= k < i + 1 implies (#[trigger] s[k]).id@ != id by {
                    if k > 0 {
                        assert(rest[k - 1].id@ != id);
                    }
                }
            },
        }
    }
}

/// The displays this recorder offers for capture. The catalogue is fixed:
/// a primary built-in display and one external display.
pub fn available_monitors() -> (r: Vec<MonitorInfo>)
    ensures
        r@.len() == 2,
        r@[0].id@ == "monitor_1"@,
        r@[0].name@ == "Built-in Retina Display"@,
        r@[0].is_primary,
        r@[1].id@ == "monitor_2"@,
        r@[1].name@ == "External Display"@,
        !r@[1].is_primary,
        r@[0].width == 2560 && r@[0].height == 1600 && r@[0].x == 0 && r@[0].y == 0,
        r@[1].width == 1920 && r@[1].height == 1080 && r@[1].x == 2560 && r@[1].y == 0,
{
    let mut monitors: Vec<MonitorInfo> = Vec::new();
    monitors.push(
        MonitorInfo {
            id: "monitor_1".to_owned(),
            name: "Built-in Retina Display".to_owned(),
            x: 0,
            y: 0,
            width: 2560,
            height: 1600,
            is_primary: true,
        },
    );
    monitors.push(
        MonitorInfo {
            id: "monitor_2".to_owned(),
            name: "External Display".to_owned(),
            x: 2560,
            y: 0,
            width: 1920,
            height: 1080,
            is_primary: false,
        },
    );
    monitors
}

} // verus!
