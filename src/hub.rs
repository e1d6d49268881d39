//! The registry of live sessions, grouped by project.
//!
//! A `ProjectServer` maps each project id to the sessions connected to it, in
//! the order they registered. Its model is a `Map` from project id to a
//! sequence of `SessionEntry`: the session's id, the outbox that feeds its
//! socket, and every text handed to that outbox so far. A project appears
//! there only while it has a session.
use bson::oid::ObjectId;
use tokio::sync::mpsc::UnboundedSender;
use vstd::prelude::*;

verus! {

#[verifier::external_type_specification]
#[verifier::external_body]
#[verifier::reject_recursive_types(T)]
pub struct ExUnboundedSender<T>(UnboundedSender<T>);

#[verifier::external_type_specification]
#[verifier::external_body]
pub struct ExObjectId(ObjectId);

/// Relies on tokio's `UnboundedSender::send`: it queues the text without
/// waiting and fails only when the receiving half is gone. Nothing is promised
/// of the outcome, which depends on the peer.
#[verifier::external_body]
fn enqueue(outbox: &UnboundedSender<String>, text: String) -> (queued: bool) {
    outbox.send(text).is_ok()
}

/// Relies on bson's `ObjectId::new`: a new object id from the clock, the
/// process and a counter. Nothing is promised of its value.
#[verifier::external_body]
pub(crate) fn fresh_object_id() -> (id: ObjectId) {
    ObjectId::new()
}

/// A character that `ObjectId::to_hex` writes: a lowercase hex digit.
pub open spec fn is_lower_hex_digit(c: char) -> bool {
    ('0' <= c && c <= '9') || ('a' <= c && c <= 'f')
}

/// Relies on bson's `ObjectId::to_hex`: the twelve bytes of the id written
/// by `hex::encode`, two lowercase hex digits each.
#[verifier::external_body]
pub(crate) fn object_id_hex(id: ObjectId) -> (text: String)
    ensures
        text@.len() == 24,
        forall|i: int| 0 <= i < 24 ==> is_lower_hex_digit(#[trigger] text@[i]),
{
    id.to_hex()
}

/// The queue that feeds one session's socket, with a record of every text
/// handed to it.
struct Outbox {
    tx: UnboundedSender<String>,
    sent: Ghost<Seq<Seq<char>>>,
}

impl Outbox {
    /// Hands `text` to the queue. A queue whose receiver is gone drops it;
    /// either way the hand-over is recorded.
    fn send(&mut self, text: &String)
        ensures
            final(self).tx == old(self).tx,
            final(self).sent@ == old(self).sent@.push(text@),
    {
        let _ = enqueue(&self.tx, text.clone());
        self.sent = Ghost(self.sent@.push(text@));
    }
}

/// A connection registered under a project: its id and its outbox.
struct Member {
    id: String,
    outbox: Outbox,
}

/// The sessions of one project.
struct Room {
    project: String,
    members: Vec<Member>,
}

/// One session as the model sees it: its id, its outbox, and the texts
/// handed to that outbox, oldest first.
pub struct SessionEntry {
    pub id: Seq<char>,
    pub outbox: UnboundedSender<String>,
    pub sent: Seq<Seq<char>>,
}

/// The model of the registry: each project's sessions, in registration order.
pub type Registry = Map<Seq<char>, Seq<SessionEntry>>;

spec fn entry_of(m: Member) -> SessionEntry {
    SessionEntry { id: m.id@, outbox: m.outbox.tx, sent: m.outbox.sent@ }
}

spec fn entries_of(members: Seq<Member>) -> Seq<SessionEntry> {
    members.map_values(|m: Member| entry_of(m))
}

/// The ids of a sequence of sessions, in order.
pub open spec fn ids(es: Seq<SessionEntry>) -> Seq<Seq<char>> {
    es.map_values(|e: SessionEntry| e.id)
}

/// A session just registered: nothing handed to its outbox yet.
pub open spec fn fresh_entry(id: Seq<char>, outbox: UnboundedSender<String>) -> SessionEntry {
    SessionEntry { id, outbox, sent: Seq::empty() }
}

/// A room that is non-empty, holds distinct ids and agrees with the model.
spec fn room_ok(model: Registry, room: Room) -> bool {
    &&& room.members@.len() > 0
    &&& ids(entries_of(room.members@)).no_duplicates()
    &&& model.contains_key(room.project@)
    &&& model[room.project@] == entries_of(room.members@)
}

/// The registry: which sessions are connected to which project.
pub struct ProjectServer {
    rooms: Vec<Room>,
    model: Ghost<Registry>,
}

/// The registry after `connect` put session `id` with `outbox` under
/// `project`; every other project and session is as it was.
pub open spec fn after_connect(
    m: Registry,
    project: Seq<char>,
    id: Seq<char>,
    outbox: UnboundedSender<String>,
) -> Registry {
    if m.contains_key(project) {
        m.insert(project, m[project].push(fresh_entry(id, outbox)))
    } else {
        m.insert(project, seq![fresh_entry(id, outbox)])
    }
}

/// `es` without the first session whose id is `id`, if there is one.
pub open spec fn without(es: Seq<SessionEntry>, id: Seq<char>) -> Seq<SessionEntry> {
    match ids(es).index_of_first(id) {
        Some(i) => es.remove(i),
        None => es,
    }
}

/// The registry after `disconnect` took session `id` out of `project`; a
/// project whose last session leaves is dropped.
pub open spec fn after_disconnect(m: Registry, project: Seq<char>, id: Seq<char>) -> Registry {
    if !m.contains_key(project) {
        m
    } else if without(m[project], id).len() == 0 {
        m.remove(project)
    } else {
        m.insert(project, without(m[project], id))
    }
}

/// `e` after `text` was handed to its outbox.
pub open spec fn handed(e: SessionEntry, text: Seq<char>) -> SessionEntry {
    SessionEntry { id: e.id, outbox: e.outbox, sent: e.sent.push(text) }
}

/// The registry after `text` was handed once to the outbox of every session
/// of `project`, the sender included. Other projects see nothing; a project
/// with no sessions leaves the registry as it was.
pub open spec fn after_broadcast(m: Registry, project: Seq<char>, text: Seq<char>) -> Registry {
    if m.contains_key(project) {
        m.insert(project, m[project].map_values(|e: SessionEntry| handed(e, text)))
    } else {
        m
    }
}

/// The ids of the sessions that a broadcast to `project` reaches.
pub open spec fn audience(m: Registry, project: Seq<char>) -> Seq<Seq<char>> {
    if m.contains_key(project) {
        ids(m[project])
    } else {
        Seq::empty()
    }
}

/// What every reachable registry satisfies: each project listed has a
/// session, and no session id occurs twice under one project.
pub open spec fn registry_ok(m: Registry) -> bool {
    forall|p: Seq<char>| #[trigger]
        m.contains_key(p) ==> m[p].len() > 0 && ids(m[p]).no_duplicates()
}

impl View for ProjectServer {
    type V = Registry;

    closed spec fn view(&self) -> Registry {
        self.model@
    }
}

impl ProjectServer {
    /// The concrete rooms agree with the model, project ids are distinct,
    /// and every room is non-empty with distinct session ids.
    pub closed spec fn wf(&self) -> bool {
        &&& forall|i: int| 0 <= i < self.rooms@.len() ==> room_ok(self.model@, #[trigger] self.rooms@[i])
        &&& forall|i: int, j: int|
            0 <= i < self.rooms@.len() && 0 <= j < self.rooms@.len() && i != j
                ==> #[trigger] self.rooms@[i].project@ != #[trigger] self.rooms@[j].project@
        &&& forall|p: Seq<char>| #[trigger]
            self.model@.contains_key(p) ==> exists|i: int|
                0 <= i < self.rooms@.len() && #[trigger] self.rooms@[i].project@ == p
    }

    /// An empty registry.
    pub fn new() -> (hub: ProjectServer)
        ensures
            hub.wf(),
            hub@ == Map::<Seq<char>, Seq<SessionEntry>>::empty(),
    {
        ProjectServer { rooms: Vec::new(), model: Ghost(Map::empty()) }
    }

    /// The position of the room of `project`, if it has one.
    fn find_room(&self, project: &String) -> (r: Option<usize>)
        requires
            self.wf(),
        ensures
            match r {
                Some(i) => i < self.rooms@.len() && self.rooms@[i as int].project@ == project@,
                None => !self@.contains_key(project@),
            },
    {
        let mut i: usize = 0;
        while i < self.rooms.len()
            invariant
                self.wf(),
                i <= self.rooms@.len(),
                forall|k: int| 0 <= k < i ==> self.rooms@[k].project@ != project@,
            decreases self.rooms@.len() - i,
        {
            if self.rooms[i].project == *project {
                return Some(i);
            }
            i = i + 1;
        }
        None
    }

    /// After room `i` was replaced by `room`, which keeps its project and
    /// agrees with `model`, the registry is well formed again.
    proof fn lemma_replace_room(&self, old_rooms: Seq<Room>, old_model: Registry, i: int)
        requires
            0 <= i < old_rooms.len(),
            self.rooms@ == old_rooms.update(i, self.rooms@[i]),
            self.rooms@[i].project@ == old_rooms[i].project@,
            room_ok(self.model@, self.rooms@[i]),
            self.model@ == old_model.insert(old_rooms[i].project@, self.model@[old_rooms[i].project@]),
            forall|k: int| 0 <= k < old_rooms.len() ==> room_ok(old_model, #[trigger] old_rooms[k]),
            forall|a: int, b: int|
                0 <= a < old_rooms.len() && 0 <= b < old_rooms.len() && a != b
                    ==> #[trigger] old_rooms[a].project@ != #[trigger] old_rooms[b].project@,
            forall|p: Seq<char>| #[trigger]
                old_model.contains_key(p) ==> exists|k: int|
                    0 <= k < old_rooms.len() && #[trigger] old_rooms[k].project@ == p,
        ensures
            self.wf(),
    {
        let pv = old_rooms[i].project@;
        assert forall|k: int| 0 <= k < self.rooms@.len() implies room_ok(self.model@, #[trigger] self.rooms@[k]) by {
            if k != i {
                assert(self.rooms@[k] == old_rooms[k]);
                assert(old_rooms[k].project@ != pv);
                assert(room_ok(old_model, old_rooms[k]));
            }
        }
        assert forall|p: Seq<char>| #[trigger] self.model@.contains_key(p) implies exists|k: int|
            0 <= k < self.rooms@.len() && #[trigger] self.rooms@[k].project@ == p by {
            if p == pv {
                assert(self.rooms@[i].project@ == p);
            } else {
                let k = choose|k: int| 0 <= k < old_rooms.len() && #[trigger] old_rooms[k].project@ == p;
                assert(self.rooms@[k].project@ == p);
            }
        }
    }

    /// Registers session `id` with `outbox` under `project` when no session
    /// of that project has this id; otherwise leaves the registry as it was.
    pub fn connect_with_id(&mut self, project: String, id: String, outbox: UnboundedSender<String>) -> (added: bool)
        requires
            old(self).wf(),
        ensures
            final(self).wf(),
            added == !audience(old(self)@, project@).contains(id@),
            added ==> final(self)@ == after_connect(old(self)@, project@, id@, outbox),
            !added ==> final(self)@ == old(self)@,
    {
        let ghost old_rooms = self.rooms@;
        let ghost old_model = self.model@;
        let ghost pv = project@;
        let ghost iv = id@;
        let ghost fresh = fresh_entry(id@, outbox);
        match self.find_room(&project) {
            None => {
                let mut members: Vec<Member> = Vec::new();
                members.push(Member { id, outbox: Outbox { tx: outbox, sent: Ghost(Seq::empty()) } });
                let room = Room { project, members };
                assert(entries_of(room.members@) =~= seq![fresh]);
                assert(ids(seq![fresh]) =~= seq![iv]);
                self.rooms.push(room);
                self.model = Ghost(old_model.insert(pv, seq![fresh]));
                proof {
                    assert forall|i: int| 0 <= i < old_rooms.len() implies old_rooms[i].project@ != pv by {
                        assert(room_ok(old_model, old_rooms[i]));
                    }
                    assert forall|i: int| 0 <= i < self.rooms@.len() implies room_ok(self.model@, #[trigger] self.rooms@[i]) by {
                        if i < old_rooms.len() {
                            assert(self.rooms@[i] == old_rooms[i]);
                            assert(room_ok(old_model, old_rooms[i]));
                        }
                    }
                    assert forall|p: Seq<char>| #[trigger] self.model@.contains_key(p) implies exists|i: int|
                        0 <= i < self.rooms@.len() && #[trigger] self.rooms@[i].project@ == p by {
                        if p == pv {
                            assert(self.rooms@[old_rooms.len() as int].project@ == p);
                        } else {
                            let i = choose|i: int| 0 <= i < old_rooms.len() && #[trigger] old_rooms[i].project@ == p;
                            assert(self.rooms@[i].project@ == p);
                        }
                    }
                }
                true
            },
            Some(i) => {
                proof {
                    assert(room_ok(old_model, old_rooms[i as int]));
                }
                if position_of(&self.rooms[i].members, &id).is_some() {
                    return false;
                }
                let mut room = self.rooms.remove(i);
                let ghost old_entries = entries_of(room.members@);
                room.members.push(Member { id, outbox: Outbox { tx: outbox, sent: Ghost(Seq::empty()) } });
                assert(entries_of(room.members@) =~= old_entries.push(fresh));
                assert(ids(old_entries.push(fresh)) =~= ids(old_entries).push(iv));
                self.rooms.insert(i, room);
                assert(self.rooms@ =~= old_rooms.update(i as int, room));
                self.model = Ghost(old_model.insert(pv, old_entries.push(fresh)));
                proof {
                    let old_ids = ids(old_entries);
                    assert forall|a: int, b: int| 0 <= a < old_ids.push(iv).len() && 0 <= b < old_ids.push(iv).len() && a != b
                        implies old_ids.push(iv)[a] != old_ids.push(iv)[b] by {
                        if a < old_ids.len() && b < old_ids.len() {
                        } else if a == old_ids.len() {
                            assert(old_ids[b] == old_ids.push(iv)[b]);
                        } else {
                            assert(old_ids[a] == old_ids.push(iv)[a]);
                        }
                    }
                    self.lemma_replace_room(old_rooms, old_model, i as int);
                }
                true
            },
        }
    }

    /// Registers `outbox` under `project` with a fresh object id, written as
    /// 24 lowercase hex digits, and returns that id. A project without
    /// sessions always accepts it; otherwise `None` (the registry unchanged)
    /// means the id drawn was already taken there.
    pub fn connect(&mut self, project: String, outbox: UnboundedSender<String>) -> (id: Option<String>)
        requires
            old(self).wf(),
        ensures
            final(self).wf(),
            !old(self)@.contains_key(project@) ==> id is Some,
            match id {
                Some(s) => {
                    &&& s@.len() == 24
                    &&& forall|i: int| 0 <= i < 24 ==> is_lower_hex_digit(#[trigger] s@[i])
                    &&& !audience(old(self)@, project@).contains(s@)
                    &&& final(self)@ == after_connect(old(self)@, project@, s@, outbox)
                },
                None => {
                    &&& audience(old(self)@, project@).len() > 0
                    &&& final(self)@ == old(self)@
                },
            },
    {
        let id = object_id_hex(fresh_object_id());
        let kept = id.clone();
        if self.connect_with_id(project, id, outbox) {
            Some(kept)
        } else {
            None
        }
    }

    /// Removes session `id` from `project`, and the project itself when that
    /// was its last session. Absent projects and sessions are left alone.
    pub fn disconnect(&mut self, project: String, id: String)
        requires
            old(self).wf(),
        ensures
            final(self).wf(),
            final(self)@ == after_disconnect(old(self)@, project@, id@),
    {
        let ghost old_rooms = self.rooms@;
        let ghost old_model = self.model@;
        let ghost pv = project@;
        let ghost iv = id@;
        match self.find_room(&project) {
            None => {},
            Some(i) => {
                proof {
                    assert(room_ok(old_model, old_rooms[i as int]));
                }
                let j = match position_of(&self.rooms[i].members, &id) {
                    None => {
                        proof {
                            ids(old_model[pv]).index_of_first_ensures(iv);
                            assert(old_model.insert(pv, old_model[pv]) =~= old_model);
                        }
                        return;
                    },
                    Some(j) => j,
                };
                let mut room = self.rooms.remove(i);
                let ghost old_entries = entries_of(room.members@);
                let ghost old_ids = ids(old_entries);
                assert(old_model[pv] == old_entries);
                let _gone = room.members.remove(j);
                assert(entries_of(room.members@) =~= old_entries.remove(j as int));
                assert(without(old_entries, iv) == old_entries.remove(j as int));
                proof {
                    assert(ids(old_entries.remove(j as int)) =~= old_ids.remove(j as int));
                    old_ids.remove_ensures(j as int);
                    assert forall|a: int, b: int| 0 <= a < old_ids.remove(j as int).len() && 0 <= b < old_ids.remove(j as int).len() && a != b
                        implies old_ids.remove(j as int)[a] != old_ids.remove(j as int)[b] by {
                        let a2 = if a < j { a } else { a + 1 };
                        let b2 = if b < j { b } else { b + 1 };
                        assert(old_ids.remove(j as int)[a] == old_ids[a2]);
                        assert(old_ids.remove(j as int)[b] == old_ids[b2]);
                    }
                }
                if room.members.len() == 0 {
                    self.model = Ghost(old_model.remove(pv));
                    proof {
                        assert(self.rooms@ =~= old_rooms.remove(i as int));
                        old_rooms.remove_ensures(i as int);
                        assert forall|k: int| 0 <= k < self.rooms@.len() implies room_ok(self.model@, #[trigger] self.rooms@[k]) by {
                            let k2 = if k < i { k } else { k + 1 };
                            assert(self.rooms@[k] == old_rooms[k2]);
                            assert(old_rooms[k2].project@ != old_rooms[i as int].project@);
                            assert(room_ok(old_model, old_rooms[k2]));
                        }
                        assert forall|a: int, b: int| 0 <= a < self.rooms@.len() && 0 <= b < self.rooms@.len() && a != b
                            implies #[trigger] self.rooms@[a].project@ != #[trigger] self.rooms@[b].project@ by {
                            let a2 = if a < i { a } else { a + 1 };
                            let b2 = if b < i { b } else { b + 1 };
                            assert(self.rooms@[a] == old_rooms[a2]);
                            assert(self.rooms@[b] == old_rooms[b2]);
                        }
                        assert forall|p: Seq<char>| #[trigger] self.model@.contains_key(p) implies exists|k: int|
                            0 <= k < self.rooms@.len() && #[trigger] self.rooms@[k].project@ == p by {
                            let k = choose|k: int| 0 <= k < old_rooms.len() && #[trigger] old_rooms[k].project@ == p;
                            assert(k != i);
                            if k < i {
                                assert(self.rooms@[k].project@ == p);
                            } else {
                                assert(self.rooms@[k - 1].project@ == p);
                            }
                        }
                    }
                } else {
                    self.rooms.insert(i, room);
                    assert(self.rooms@ =~= old_rooms.update(i as int, room));
                    self.model = Ghost(old_model.insert(pv, old_entries.remove(j as int)));
                    proof {
                        self.lemma_replace_room(old_rooms, old_model, i as int);
                    }
                }
            },
        }
    }

    /// Hands `text` once to the outbox of every session of `project`, the
    /// sender included, and returns their ids in registration order. A
    /// failed hand-over does not stop the others; sessions of other projects,
    /// and a project with no sessions, are sent nothing.
    pub fn broadcast(&mut self, project: &String, text: &String) -> (reached: Vec<String>)
        requires
            old(self).wf(),
        ensures
            final(self).wf(),
            final(self)@ == after_broadcast(old(self)@, project@, text@),
            reached@.map_values(|s: String| s@) == audience(old(self)@, project@),
    {
        let ghost old_rooms = self.rooms@;
        let ghost old_model = self.model@;
        let ghost pv = project@;
        let ghost tv = text@;
        match self.find_room(project) {
            None => {
                let reached: Vec<String> = Vec::new();
                assert(reached@.map_values(|s: String| s@) =~= Seq::<Seq<char>>::empty());
                reached
            },
            Some(i) => {
                proof {
                    assert(room_ok(old_model, old_rooms[i as int]));
                }
                let mut room = self.rooms.remove(i);
                let ghost old_members = room.members@;
                let ghost old_entries = entries_of(old_members);
                let mut reached: Vec<String> = Vec::new();
                let mut k: usize = 0;
                while k < room.members.len()
                    invariant
                        old_entries == entries_of(old_members),
                        pv == project@,
                        tv == text@,
                        room.project@ == pv,
                        room.members@.len() == old_members.len(),
                        k <= old_members.len(),
                        forall|x: int| 0 <= x < k ==> entry_of(#[trigger] room.members@[x]) == handed(entry_of(old_members[x]), tv),
                        forall|x: int| k <= x < old_members.len() ==> #[trigger] room.members@[x] == old_members[x],
                        reached@.map_values(|s: String| s@) =~= ids(old_entries).take(k as int),
                    decreases old_members.len() - k,
                {
                    let mut member = room.members.remove(k);
                    assert(member == old_members[k as int]);
                    assert(old_entries[k as int] == entry_of(old_members[k as int]));
                    assert(ids(old_entries)[k as int] == member.id@);
                    member.outbox.send(text);
                    reached.push(member.id.clone());
                    assert(ids(old_entries).take(k + 1) =~= ids(old_entries).take(k as int).push(member.id@));
                    assert(entry_of(member) == handed(entry_of(old_members[k as int]), tv));
                    let ghost before = room.members@;
                    room.members.insert(k, member);
                    proof {
                        assert(room.members@[k as int] == member);
                        assert forall|x: int| 0 <= x < k + 1 implies entry_of(#[trigger] room.members@[x]) == handed(entry_of(old_members[x]), tv) by {
                            if x < k {
                                assert(room.members@[x] == before[x]);
                            }
                        }
                        assert forall|x: int| k + 1 <= x < old_members.len() implies #[trigger] room.members@[x] == old_members[x] by {
                            assert(room.members@[x] == before[x - 1]);
                        }
                    }
                    k = k + 1;
                }
                let ghost new_entries = old_entries.map_values(|e: SessionEntry| handed(e, tv));
                assert(entries_of(room.members@) =~= new_entries);
                assert(ids(old_entries).take(k as int) =~= ids(old_entries));
                assert(ids(new_entries) =~= ids(old_entries));
                self.rooms.insert(i, room);
                assert(self.rooms@ =~= old_rooms.update(i as int, room));
                self.model = Ghost(old_model.insert(pv, new_entries));
                proof {
                    self.lemma_replace_room(old_rooms, old_model, i as int);
                }
                reached
            },
        }
    }
}

impl Default for ProjectServer {
    /// An empty registry.
    fn default() -> (hub: ProjectServer)
        ensures
            hub.wf(),
            hub@ == Map::<Seq<char>, Seq<SessionEntry>>::empty(),
    {
        ProjectServer::new()
    }
}

/// Every project listed in a registry that the operations can reach has at
/// least one session: a room is dropped as soon as its last session leaves.
pub proof fn lemma_no_empty_rooms(hub: &ProjectServer)
    requires
        hub.wf(),
    ensures
        forall|p: Seq<char>| #[trigger] hub@.contains_key(p) ==> hub@[p].len() > 0,
{
    lemma_registry_ok(hub);
}

/// Within one project no session id is registered twice.
pub proof fn lemma_session_ids_unique(hub: &ProjectServer)
    requires
        hub.wf(),
    ensures
        forall|p: Seq<char>| #[trigger] hub@.contains_key(p) ==> ids(hub@[p]).no_duplicates(),
{
    lemma_registry_ok(hub);
}

/// A well-formed hub's model satisfies `registry_ok`.
pub proof fn lemma_registry_ok(hub: &ProjectServer)
    requires
        hub.wf(),
    ensures
        registry_ok(hub@),
{
    assert forall|p: Seq<char>| #[trigger] hub@.contains_key(p) implies hub@[p].len() > 0
        && ids(hub@[p]).no_duplicates() by {
        let i = choose|i: int| 0 <= i < hub.rooms@.len() && #[trigger] hub.rooms@[i].project@ == p;
        assert(room_ok(hub.model@, hub.rooms@[i]));
    }
}

/// Disconnecting the same session twice has the effect of disconnecting it
/// once.
pub proof fn lemma_disconnect_idempotent(m: Registry, project: Seq<char>, id: Seq<char>)
    requires
        registry_ok(m),
    ensures
        after_disconnect(after_disconnect(m, project, id), project, id) == after_disconnect(
            m,
            project,
            id,
        ),
{
    if m.contains_key(project) {
        let es = m[project];
        ids(es).index_of_first_ensures(id);
        let rest = without(es, id);
        match ids(es).index_of_first(id) {
            Some(j) => {
                assert(ids(rest) =~= ids(es).remove(j));
                ids(es).remove_ensures(j);
                assert forall|k: int| 0 <= k < ids(rest).len() implies ids(rest)[k] != id by {
                    if k < j {
                        assert(ids(rest)[k] == ids(es)[k]);
                    } else {
                        assert(ids(rest)[k] == ids(es)[k + 1]);
                    }
                }
            },
            None => {},
        }
        ids(rest).index_of_first_ensures(id);
        assert(without(rest, id) == rest);
        let once = after_disconnect(m, project, id);
        if rest.len() > 0 {
            assert(once[project] == rest);
            assert(once.insert(project, rest) =~= once);
        }
    }
}

/// The first position of a member with id `id`, as `index_of_first` gives it
/// on the ids.
fn position_of(members: &Vec<Member>, id: &String) -> (r: Option<usize>)
    ensures
        match r {
            Some(j) => {
                &&& j < members@.len()
                &&& ids(entries_of(members@))[j as int] == id@
                &&& ids(entries_of(members@)).contains(id@)
                &&& ids(entries_of(members@)).index_of_first(id@) == Some(j as int)
            },
            None => !ids(entries_of(members@)).contains(id@),
        },
{
    let ghost all = ids(entries_of(members@));
    let mut j: usize = 0;
    while j < members.len()
        invariant
            j <= members@.len(),
            all == ids(entries_of(members@)),
            forall|k: int| 0 <= k < j ==> all[k] != id@,
        decreases members@.len() - j,
    {
        if members[j].id == *id {
            proof {
                all.index_of_first_ensures(id@);
                assert(all[j as int] == id@);
                let f = all.index_of_first(id@).unwrap();
                if f < j {
                    assert(all[f] != id@);
                } else if f > j {
                    assert(all[j as int] != id@);
                }
            }
            return Some(j);
        }
        j = j + 1;
    }
    proof {
        if all.contains(id@) {
            let k = choose|k: int| 0 <= k < all.len() && all[k] == id@;
            assert(all[k] != id@);
        }
    }
    None
}

} // verus!
