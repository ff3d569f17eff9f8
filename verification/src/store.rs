//! Carrying a plan out against a store, one request at a time.
//!
//! The store itself is a directory tree that only the caller can reach. A
//! session decides what is asked of it: whether an object is there, and the
//! write of one that is not. An object that is there is never written
//! again, so carrying the same plan out twice writes no object the second
//! time.

use vstd::prelude::*;
use vstd::string::*;
use crate::archive::{names_object, ObjectView, PlanView, StorePlan};
use crate::index::keys_unique;
use crate::error::{FetchError, FetchErrorView};
use crate::index::PackageIndex;

verus! {

/// What a session asks of the store.
#[derive(Clone, Copy, Debug, PartialEq, Eq)]
pub enum StoreRequest<'a> {
    /// Tell whether an object is kept at `path`.
    Probe { path: &'a str },
    /// Keep `contents` at `path`, with the directories above it, so that
    /// nobody ever sees a part of them there.
    Write { path: &'a str, contents: &'a [u8] },
    /// Nothing: the plan is carried out.
    Finished,
    /// Nothing: the store failed, or answered out of turn.
    Stopped,
}

/// A [`StoreRequest`] as a mathematical value.
pub enum RequestView {
    Probe { path: Seq<char> },
    Write { path: Seq<char>, contents: Seq<u8> },
    Finished,
    Stopped,
}

impl<'a> View for StoreRequest<'a> {
    type V = RequestView;

    open spec fn view(&self) -> RequestView {
        match self {
            StoreRequest::Probe { path } => RequestView::Probe { path: path@ },
            StoreRequest::Write { path, contents } => RequestView::Write {
                path: path@,
                contents: contents@,
            },
            StoreRequest::Finished => RequestView::Finished,
            StoreRequest::Stopped => RequestView::Stopped,
        }
    }
}

/// What the store answers to a request.
#[derive(Clone, Copy, Debug, PartialEq, Eq, Structural)]
pub enum StoreReply {
    /// An object is kept at the probed path.
    Present,
    /// Nothing is kept at the probed path.
    Absent,
    /// The write was done.
    Written,
    /// The store could not do what was asked.
    Failed,
}

/// Where a session stands.
#[derive(Clone, Copy, Debug, PartialEq, Eq, Structural)]
pub enum Stage {
    /// The object at the cursor is being probed.
    Probing,
    /// The object at the cursor, found absent, is being written.
    Writing,
    /// Every object is dealt with; the index file is being written.
    Indexing,
    /// The plan is carried out.
    Done,
    /// The store failed or answered out of turn.
    Failed,
}

/// A session as a mathematical value: the plan, the number of objects dealt
/// with, the stage, and the number of objects written so far.
pub struct SessionView {
    pub plan: PlanView,
    pub cursor: nat,
    pub stage: Stage,
    pub written: nat,
}

/// The stage of a session that has dealt with `cursor` of `count` objects
/// and is about to turn to the next thing.
pub open spec fn stage_at(cursor: nat, count: nat) -> Stage {
    if cursor < count {
        Stage::Probing
    } else {
        Stage::Indexing
    }
}

/// The session that begins to carry `plan` out.
pub open spec fn start(plan: PlanView) -> SessionView {
    SessionView { plan, cursor: 0, stage: stage_at(0, plan.objects.len()), written: 0 }
}

/// The index of the plan is well formed, and the cursor and the stage of
/// the session fit the plan.
pub open spec fn session_wf(s: SessionView) -> bool {
    &&& keys_unique(s.plan.lines)
    &&& s.cursor <= s.plan.objects.len()
    &&& s.written <= s.cursor
    &&& (s.stage == Stage::Probing || s.stage == Stage::Writing) ==> s.cursor
        < s.plan.objects.len()
    &&& (s.stage == Stage::Indexing || s.stage == Stage::Done) ==> s.cursor
        == s.plan.objects.len()
}

/// What a session asks next.
pub open spec fn request_of(s: SessionView) -> RequestView {
    match s.stage {
        Stage::Probing => RequestView::Probe { path: s.plan.objects[s.cursor as int].path },
        Stage::Writing => RequestView::Write {
            path: s.plan.objects[s.cursor as int].path,
            contents: s.plan.objects[s.cursor as int].contents,
        },
        Stage::Indexing => RequestView::Write {
            path: s.plan.index_file.path,
            contents: s.plan.index_file.contents,
        },
        Stage::Done => RequestView::Finished,
        Stage::Failed => RequestView::Stopped,
    }
}

/// The session after the object at the cursor is dealt with.
pub open spec fn moved_on(s: SessionView, written: nat) -> SessionView {
    SessionView {
        plan: s.plan,
        cursor: s.cursor + 1,
        stage: stage_at(s.cursor + 1, s.plan.objects.len()),
        written,
    }
}

/// The session after the store has answered `reply` to its request. An
/// object found present is passed over; one found absent is written; once
/// every object is dealt with the index file is written. A session that is
/// done or has failed stays as it is, and any other answer is a failure.
pub open spec fn step(s: SessionView, reply: StoreReply) -> SessionView {
    match (s.stage, reply) {
        (Stage::Done, _) => s,
        (Stage::Failed, _) => s,
        (Stage::Probing, StoreReply::Present) => moved_on(s, s.written),
        (Stage::Probing, StoreReply::Absent) => SessionView { stage: Stage::Writing, ..s },
        (Stage::Writing, StoreReply::Written) => moved_on(s, s.written + 1),
        (Stage::Indexing, StoreReply::Written) => SessionView { stage: Stage::Done, ..s },
        _ => SessionView { stage: Stage::Failed, ..s },
    }
}

/// What is reported for a session that did not reach its end.
pub open spec fn store_failure() -> Seq<char> {
    "the store could not be written"@
}

/// A plan that is being carried out.
#[derive(Clone, Debug)]
pub struct StoreSession {
    plan: StorePlan,
    cursor: usize,
    stage: Stage,
    written: usize,
}

impl View for StoreSession {
    type V = SessionView;

    closed spec fn view(&self) -> SessionView {
        SessionView {
            plan: self.plan@,
            cursor: self.cursor as nat,
            stage: self.stage,
            written: self.written as nat,
        }
    }
}

impl StoreSession {
    /// The session is well formed: the index of its plan is, and its cursor
    /// and stage fit its plan.
    pub open spec fn wf(&self) -> bool {
        session_wf(self@)
    }

    /// Begins to carry `plan` out.
    pub fn new(plan: StorePlan) -> (session: StoreSession)
        requires
            plan.index.wf(),
        ensures
            session.wf(),
            session@ == start(plan@),
    {
        let stage = if plan.objects.len() > 0 {
            Stage::Probing
        } else {
            Stage::Indexing
        };
        StoreSession { plan, cursor: 0, stage, written: 0 }
    }

    /// What the store is asked next.
    pub fn request(&self) -> (request: StoreRequest<'_>)
        requires
            self.wf(),
        ensures
            request@ == request_of(self@),
    {
        match self.stage {
            Stage::Probing => StoreRequest::Probe {
                path: self.plan.objects[self.cursor].path.as_str(),
            },
            Stage::Writing => StoreRequest::Write {
                path: self.plan.objects[self.cursor].path.as_str(),
                contents: self.plan.objects[self.cursor].contents.as_slice(),
            },
            Stage::Indexing => StoreRequest::Write {
                path: self.plan.index_file.path.as_str(),
                contents: self.plan.index_file.contents.as_slice(),
            },
            Stage::Done => StoreRequest::Finished,
            Stage::Failed => StoreRequest::Stopped,
        }
    }

    /// Takes in what the store answered to the last request.
    pub fn record(&mut self, reply: StoreReply)
        requires
            old(self).wf(),
        ensures
            final(self).wf(),
            final(self)@ == step(old(self)@, reply),
    {
        let count: usize = self.plan.objects.len();
        match (self.stage, reply) {
            (Stage::Done, _) => {},
            (Stage::Failed, _) => {},
            (Stage::Probing, StoreReply::Present) => {
                self.cursor = self.cursor + 1;
                self.stage = if self.cursor < count {
                    Stage::Probing
                } else {
                    Stage::Indexing
                };
            },
            (Stage::Probing, StoreReply::Absent) => {
                self.stage = Stage::Writing;
            },
            (Stage::Writing, StoreReply::Written) => {
                self.cursor = self.cursor + 1;
                self.written = self.written + 1;
                self.stage = if self.cursor < count {
                    Stage::Probing
                } else {
                    Stage::Indexing
                };
            },
            (Stage::Indexing, StoreReply::Written) => {
                self.stage = Stage::Done;
            },
            _ => {
                self.stage = Stage::Failed;
            },
        }
    }

    /// Where the session stands.
    pub fn stage(&self) -> (stage: Stage)
        ensures
            stage == self@.stage,
    {
        self.stage
    }

    /// The number of objects written so far.
    pub fn written(&self) -> (n: usize)
        ensures
            n == self@.written,
    {
        self.written
    }

    /// Ends the session: the index of the package where the plan is carried
    /// out, a failure of the store in every other case.
    pub fn finish(self) -> (r: Result<PackageIndex, FetchError>)
        requires
            self.wf(),
        ensures
            match r {
                Ok(index) => self@.stage == Stage::Done && index.wf() && index.pairs()
                    == self@.plan.lines,
                Err(e) => self@.stage != Stage::Done && e@ == FetchErrorView::Io(store_failure()),
            },
    {
        match self.stage {
            Stage::Done => Ok(self.plan.index),
            _ => Err(FetchError::Io(String::from_str("the store could not be written"))),
        }
    }
}

/// A store as a mathematical value: what is kept at each path.
pub type StoreView = Map<Seq<char>, Seq<u8>>;

/// What a store answers to a request, if it does what it is asked.
pub open spec fn answer(store: StoreView, request: RequestView) -> StoreReply {
    match request {
        RequestView::Probe { path } => if store.contains_key(path) {
            StoreReply::Present
        } else {
            StoreReply::Absent
        },
        _ => StoreReply::Written,
    }
}

/// The store after it has done what it was asked.
pub open spec fn effect(store: StoreView, request: RequestView) -> StoreView {
    match request {
        RequestView::Write { path, contents } => store.insert(path, contents),
        _ => store,
    }
}

/// The session and the store after at most `steps` requests, each done by
/// the store as asked.
pub open spec fn run(s: SessionView, store: StoreView, steps: nat) -> (SessionView, StoreView)
    decreases steps,
{
    if steps == 0 || s.stage == Stage::Done || s.stage == Stage::Failed {
        (s, store)
    } else {
        let request = request_of(s);
        run(step(s, answer(store, request)), effect(store, request), (steps - 1) as nat)
    }
}

/// The store after each of the objects, in order, is kept unless something
/// is already kept at its path.
pub open spec fn kept(store: StoreView, objects: Seq<ObjectView>) -> StoreView
    decreases objects.len(),
{
    if objects.len() == 0 {
        store
    } else {
        let before = kept(store, objects.drop_last());
        let object = objects.last();
        if before.contains_key(object.path) {
            before
        } else {
            before.insert(object.path, object.contents)
        }
    }
}

/// The number of objects that are written when each of them, in order, is
/// kept unless something is already kept at its path.
pub open spec fn fresh(store: StoreView, objects: Seq<ObjectView>) -> nat
    decreases objects.len(),
{
    if objects.len() == 0 {
        0
    } else {
        let before = kept(store, objects.drop_last());
        let earlier = fresh(store, objects.drop_last());
        if before.contains_key(objects.last().path) {
            earlier
        } else {
            earlier + 1
        }
    }
}

/// The session at its end, and the store then, when `plan` is carried out
/// against `store`.
pub open spec fn carried_out(plan: PlanView, store: StoreView) -> (SessionView, StoreView) {
    (
        SessionView {
            plan,
            cursor: plan.objects.len(),
            stage: Stage::Done,
            written: fresh(store, plan.objects),
        },
        kept(store, plan.objects).insert(plan.index_file.path, plan.index_file.contents),
    )
}

proof fn lemma_run_from(plan: PlanView, store: StoreView, cursor: nat, steps: nat)
    requires
        cursor <= plan.objects.len(),
        steps >= 2 * (plan.objects.len() - cursor) + 1,
    ensures
        run(
            SessionView {
                plan,
                cursor,
                stage: stage_at(cursor, plan.objects.len()),
                written: fresh(store, plan.objects.take(cursor as int)),
            },
            kept(store, plan.objects.take(cursor as int)),
            steps,
        ) == carried_out(plan, store),
    decreases plan.objects.len() - cursor,
{
    let objects = plan.objects;
    let s = SessionView {
        plan,
        cursor,
        stage: stage_at(cursor, objects.len()),
        written: fresh(store, objects.take(cursor as int)),
    };
    let now = kept(store, objects.take(cursor as int));
    if cursor == objects.len() {
        assert(objects.take(cursor as int) =~= objects);
        let request = request_of(s);
        let after = step(s, answer(now, request));
        assert(after.stage == Stage::Done);
        assert(run(after, effect(now, request), (steps - 1) as nat) == (
            after,
            effect(now, request),
        ));
    } else {
        let next = objects.take(cursor as int + 1);
        assert(next.drop_last() =~= objects.take(cursor as int));
        assert(next.last() == objects[cursor as int]);
        let probe = request_of(s);
        let probed = step(s, answer(now, probe));
        assert(effect(now, probe) == now);
        if now.contains_key(objects[cursor as int].path) {
            assert(probed == moved_on(s, s.written));
            lemma_run_from(plan, store, cursor + 1, (steps - 1) as nat);
        } else {
            assert(probed.stage == Stage::Writing);
            let write = request_of(probed);
            let wrote = step(probed, answer(now, write));
            assert(wrote == moved_on(probed, probed.written + 1));
            assert(run(probed, now, (steps - 1) as nat) == run(
                wrote,
                effect(now, write),
                (steps - 2) as nat,
            ));
            lemma_run_from(plan, store, cursor + 1, (steps - 2) as nat);
        }
    }
}

/// A session whose store does what it is asked carries its plan out: it
/// ends done, every object was kept unless something was already kept at
/// its path, and the index file was written.
pub proof fn lemma_session_carries_out(plan: PlanView, store: StoreView, steps: nat)
    requires
        steps >= 2 * plan.objects.len() + 1,
    ensures
        run(start(plan), store, steps) == carried_out(plan, store),
{
    assert(plan.objects.take(0) =~= Seq::<ObjectView>::empty());
    lemma_run_from(plan, store, 0, steps);
}

/// Keeping objects never removes or changes what a store holds, and
/// afterwards something is kept at the path of each of them.
pub proof fn lemma_kept_holds(store: StoreView, objects: Seq<ObjectView>)
    ensures
        forall|path: Seq<char>| #[trigger]
            store.contains_key(path) ==> kept(store, objects).contains_key(path) && kept(
                store,
                objects,
            )[path] == store[path],
        forall|i: int|
            0 <= i < objects.len() ==> kept(store, objects).contains_key(
                (#[trigger] objects[i]).path,
            ),
    decreases objects.len(),
{
    if objects.len() > 0 {
        lemma_kept_holds(store, objects.drop_last());
        assert forall|i: int| 0 <= i < objects.len() implies kept(store, objects).contains_key(
            (#[trigger] objects[i]).path,
        ) by {
            if i < objects.len() - 1 {
                assert(objects.drop_last()[i] == objects[i]);
            }
        }
    }
}

/// Where something is kept at the path of every object, keeping them
/// writes nothing and leaves the store as it is.
pub proof fn lemma_nothing_fresh(store: StoreView, objects: Seq<ObjectView>)
    requires
        forall|i: int| 0 <= i < objects.len() ==> store.contains_key((#[trigger] objects[i]).path),
    ensures
        fresh(store, objects) == 0,
        kept(store, objects) == store,
    decreases objects.len(),
{
    if objects.len() > 0 {
        assert forall|i: int| 0 <= i < objects.len() - 1 implies store.contains_key(
            (#[trigger] objects.drop_last()[i]).path,
        ) by {
            assert(objects.drop_last()[i] == objects[i]);
        }
        lemma_nothing_fresh(store, objects.drop_last());
    }
}

/// Carrying a plan out a second time, against the store that the first
/// time left, writes no object and leaves the store as it is.
pub proof fn lemma_second_run_writes_nothing(plan: PlanView, store: StoreView, steps: nat)
    requires
        steps >= 2 * plan.objects.len() + 1,
    ensures
        ({
            let first = run(start(plan), store, steps);
            let second = run(start(plan), first.1, steps);
            &&& first.0.stage == Stage::Done
            &&& second.0.stage == Stage::Done
            &&& second.0.written == 0
            &&& second.1 == first.1
            &&& second.0.plan == first.0.plan
        }),
{
    lemma_session_carries_out(plan, store, steps);
    let between = carried_out(plan, store).1;
    lemma_session_carries_out(plan, between, steps);
    lemma_kept_holds(store, plan.objects);
    lemma_nothing_fresh(between, plan.objects);
    assert(between.insert(plan.index_file.path, plan.index_file.contents) =~= between);
}

/// Once a plan is carried out, something is kept at every store path that
/// a line of its index stands for, provided that each line stands for the
/// path of one of the plan's objects.
pub proof fn lemma_index_is_served(plan: PlanView, store: StoreView, steps: nat)
    requires
        steps >= 2 * plan.objects.len() + 1,
        forall|i: int|
            0 <= i < plan.lines.len() ==> names_object(plan.objects, (#[trigger] plan.lines[i]).1),
    ensures
        forall|i: int|
            0 <= i < plan.lines.len() ==> run(start(plan), store, steps).1.contains_key(
                (#[trigger] plan.lines[i]).1,
            ),
{
    lemma_session_carries_out(plan, store, steps);
    lemma_kept_holds(store, plan.objects);
    assert forall|i: int| 0 <= i < plan.lines.len() implies run(
        start(plan),
        store,
        steps,
    ).1.contains_key((#[trigger] plan.lines[i]).1) by {
        assert(names_object(plan.objects, plan.lines[i].1));
        let j = choose|j: int|
            0 <= j < plan.objects.len() && (#[trigger] plan.objects[j]).path == plan.lines[i].1;
        assert(kept(store, plan.objects).contains_key(plan.objects[j].path));
    }
}

} // verus!
