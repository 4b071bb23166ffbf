use crate::config::TranscriptionConfig;
use crate::ids::{hex_text, ObjectId};
use crate::random::fresh_uuid;
use crate::seqs::views;
use crate::tables::{
    add_number, count_numbers_by_text, drop_number, list_by_text, lists_by_text, lists_keys,
    new_lists_by_text, new_numbers, new_numbers_by_text, numbers_by_text, numbers_in,
    put_list_by_text, put_number_by_text, take_list_by_text, take_number_by_text,
    texts_with_numbers,
};
use crate::text::{chars_of, push_text, starts_with, str_eq};
use dashmap::{DashMap, DashSet};
use std::collections::HashMap;
use vstd::prelude::*;

verus! {

broadcast use vstd::std_specs::hash::group_hash_axioms;

/// How many transcripts the broadcast channel holds for a subscriber that
/// lags; older ones are lost to it.
pub const TRANSCRIPT_CHANNEL_CAPACITY: usize = 256;

/// The key of the worker that transcribes a producer: the room and the
/// producer, separated by a colon.
pub open spec fn worker_key_text(room: nat, producer_id: Seq<char>) -> Seq<char> {
    hex_text(room, 24) + seq![':'] + producer_id
}

/// The key of a file playback: `file:`, the room and a fresh identifier.
pub open spec fn playback_key_text(room: nat, unique: Seq<char>) -> Seq<char> {
    "file:"@ + hex_text(room, 24) + seq![':'] + unique
}

/// Whether a worker key is one of the room's: that of a live producer of
/// the room or that of a file played into it.
pub open spec fn belongs_to_room(key: Seq<char>, room: nat) -> bool {
    hex_text(room, 24).is_prefix_of(key) || ("file:"@ + hex_text(room, 24)).is_prefix_of(key)
}

/// The recogniser that serves a room: the one selected for the room (or
/// the default where none is selected) if it is registered; else the
/// default if it is registered; else the first registered; else none.
pub open spec fn resolve_backend(
    backends: Seq<Seq<char>>,
    default_backend: Seq<char>,
    selected: Option<Seq<char>>,
) -> Option<Seq<char>> {
    let wanted = match selected {
        Some(name) => name,
        None => default_backend,
    };
    if backends.contains(wanted) {
        Some(wanted)
    } else if backends.contains(default_backend) {
        Some(default_backend)
    } else if backends.len() > 0 {
        Some(backends[0])
    } else {
        None
    }
}

/// The texts of `names`, each once, in the order of their first appearance.
pub open spec fn distinct_texts(names: Seq<Seq<char>>) -> Seq<Seq<char>>
    decreases names.len(),
{
    if names.len() == 0 {
        Seq::empty()
    } else {
        let before = distinct_texts(names.drop_last());
        if before.contains(names.last()) {
            before
        } else {
            before.push(names.last())
        }
    }
}

/// What marking a room's broadcast as started does to the set of rooms
/// with a live broadcast, and whether the caller is the one to start it.
pub open spec fn broadcast_claim(active: Set<u128>, room: u128) -> (Set<u128>, bool) {
    (active.insert(room), !active.contains(room))
}

/// What a [`TranscriptionEngine`] holds, as mathematical values.
pub ghost struct EngineView {
    pub config: TranscriptionConfig,
    pub backends: Seq<Seq<char>>,
    pub default_backend: Seq<char>,
    pub workers: Map<Seq<char>, u64>,
    pub room_models: Map<u128, Seq<char>>,
    pub broadcast_active: Set<u128>,
    pub playbacks: Map<Seq<char>, Seq<Seq<char>>>,
    pub next_handle: u64,
}

impl EngineView {
    /// No recogniser is registered twice, and the workers are finitely many.
    pub open spec fn wf(self) -> bool {
        self.backends.no_duplicates() && self.workers.dom().finite()
    }

    /// The recogniser selected for the room, if transcription is enabled there.
    pub open spec fn selected(self, room: ObjectId) -> Option<Seq<char>> {
        if self.room_models.dom().contains(room@ as u128) {
            Some(self.room_models[room@ as u128])
        } else {
            None
        }
    }

    /// The recogniser that serves the room.
    pub open spec fn backend_for(self, room: ObjectId) -> Option<Seq<char>> {
        resolve_backend(self.backends, self.default_backend, self.selected(room))
    }

    /// The workers that are not the room's.
    pub open spec fn workers_outside(self, room: ObjectId) -> Map<Seq<char>, u64> {
        Map::new(
            |k: Seq<char>| self.workers.dom().contains(k) && !belongs_to_room(k, room@),
            |k: Seq<char>| self.workers[k],
        )
    }

    /// The playbacks tracked for a connection, oldest first.
    pub open spec fn playbacks_of(self, connection_id: Seq<char>) -> Seq<Seq<char>> {
        if self.playbacks.dom().contains(connection_id) {
            self.playbacks[connection_id]
        } else {
            Seq::empty()
        }
    }
}

/// A worker that was taken out of the engine's table; its task is to be aborted.
#[derive(Debug)]
pub struct StoppedWorker {
    pub key: String,
    pub handle: u64,
}

/// `stopped` names each of the room's workers in `workers` once, with its handle.
pub open spec fn stops_room_workers(
    stopped: Seq<StoppedWorker>,
    workers: Map<Seq<char>, u64>,
    room: nat,
) -> bool {
    &&& forall|i: int|
        0 <= i < stopped.len() ==> workers.dom().contains((#[trigger] stopped[i]).key@)
            && belongs_to_room(stopped[i].key@, room) && stopped[i].handle
            == workers[stopped[i].key@]
    &&& forall|i: int, j: int|
        0 <= i < j < stopped.len() ==> (#[trigger] stopped[i]).key@ != (#[trigger] stopped[j]).key@
    &&& forall|k: Seq<char>|
        workers.dom().contains(k) && belongs_to_room(k, room) ==> exists|i: int|
            0 <= i < stopped.len() && (#[trigger] stopped[i]).key@ == k
}

/// What starting a pipeline decided.
#[derive(Debug)]
pub struct PipelineStart {
    /// The worker's key.
    pub key: String,
    /// The worker that held the key before; its task is to be aborted.
    pub replaced: Option<u64>,
    /// The recogniser to run and the handle under which the new worker's
    /// task is kept; `None` where no recogniser is registered.
    pub started: Option<StartedWorker>,
}

/// A worker that the engine has entered in its table and that is to be spawned.
#[derive(Debug)]
pub struct StartedWorker {
    pub backend: String,
    pub handle: u64,
}

/// The workers of the engine after the keys of `keys` were stopped one by
/// one, and the handles of those that were running, in order.
pub open spec fn stop_each(workers: Map<Seq<char>, u64>, keys: Seq<Seq<char>>) -> (
    Map<Seq<char>, u64>,
    Seq<u64>,
)
    decreases keys.len(),
{
    if keys.len() == 0 {
        (workers, Seq::empty())
    } else {
        let (before, stopped) = stop_each(workers, keys.drop_last());
        if before.dom().contains(keys.last()) {
            (before.remove(keys.last()), stopped.push(before[keys.last()]))
        } else {
            (before, stopped)
        }
    }
}

/// Keeps the books of the transcription system: which recognisers exist,
/// which room uses which, which workers run, which rooms have a live
/// broadcast task, and which playbacks each connection started. The tasks
/// themselves are the caller's: the engine hands out the handles under
/// which the caller keeps them.
pub struct TranscriptionEngine {
    /// The names of the registered recognisers, each once, in the order
    /// of their registration.
    backends: Vec<String>,
    default_backend: String,
    config: TranscriptionConfig,
    /// The handle of each running worker, by the worker's key.
    workers: DashMap<String, u64>,
    /// The recogniser selected for each room with transcription enabled.
    room_models: HashMap<u128, String>,
    /// The rooms with a live broadcast task.
    broadcast_active: DashSet<u128>,
    /// The playbacks that each connection started, oldest first.
    connection_playbacks: DashMap<String, Vec<String>>,
    next_handle: u64,
}

impl View for TranscriptionEngine {
    type V = EngineView;

    closed spec fn view(&self) -> EngineView {
        EngineView {
            config: self.config,
            backends: views(self.backends@),
            default_backend: self.default_backend@,
            workers: numbers_by_text(self.workers),
            room_models: Map::new(
                |k: u128| self.room_models@.dom().contains(k),
                |k: u128| self.room_models@[k]@,
            ),
            broadcast_active: numbers_in(self.broadcast_active),
            playbacks: lists_by_text(self.connection_playbacks),
            next_handle: self.next_handle,
        }
    }
}

/// The names of `names`, each once, in the order of their first appearance.
pub fn distinct_names(names: &Vec<String>) -> (once: Vec<String>)
    ensures
        views(once@) == distinct_texts(views(names@)),
        views(once@).no_duplicates(),
{
    let ghost all = views(names@);
    let mut once: Vec<String> = Vec::new();
    let mut i: usize = 0;
    proof {
        assert(all.take(0) =~= Seq::<Seq<char>>::empty());
        assert(views(once@) =~= Seq::<Seq<char>>::empty());
    }
    while i < names.len()
        invariant
            i <= names.len(),
            all == views(names@),
            views(once@) == distinct_texts(all.take(i as int)),
            views(once@).no_duplicates(),
        decreases names.len() - i,
    {
        let name: &String = &names[i];
        let ghost before = views(once@);
        proof {
            assert(all.take(i as int + 1).drop_last() =~= all.take(i as int));
            assert(all.take(i as int + 1).last() == name@);
        }
        let mut seen = false;
        let mut k: usize = 0;
        while k < once.len()
            invariant
                k <= once.len(),
                before == views(once@),
                seen == exists|j: int| 0 <= j < k && before[j] == name@,
            decreases once.len() - k,
        {
            proof {
                assert(before[k as int] == once@[k as int]@);
            }
            if str_eq(once[k].as_str(), name.as_str()) {
                seen = true;
            }
            k += 1;
        }
        if !seen {
            once.push(name.clone());
            proof {
                assert(views(once@) =~= before.push(name@));
            }
        }
        i += 1;
    }
    proof {
        assert(all.take(all.len() as int) =~= all);
    }
    once
}

/// Writes the key of the worker that transcribes `producer_id` in `room`.
pub fn worker_key(room: &ObjectId, producer_id: &str) -> (key: String)
    ensures
        key@ == worker_key_text(room@, producer_id@),
{
    let mut key = room.to_hex();
    key.push(':');
    push_text(&mut key, producer_id);
    key
}

/// Writes the key of a file playback in `room` from a fresh identifier.
pub fn playback_key(room: &ObjectId, unique: &str) -> (key: String)
    ensures
        key@ == playback_key_text(room@, unique@),
{
    let mut key = "file:".to_owned();
    let hex = room.to_hex();
    push_text(&mut key, hex.as_str());
    key.push(':');
    push_text(&mut key, unique);
    key
}

/// Whether a worker key is one of the room's.
pub fn key_belongs_to_room(key: &str, room: &ObjectId) -> (b: bool)
    ensures
        b == belongs_to_room(key@, room@),
{
    let chars = chars_of(key);
    let hex = room.to_hex();
    let live = chars_of(hex.as_str());
    let mut file_prefix = "file:".to_owned();
    push_text(&mut file_prefix, hex.as_str());
    let file = chars_of(file_prefix.as_str());
    starts_with(&chars, &live) || starts_with(&chars, &file)
}

impl TranscriptionEngine {
    /// An engine with the given recognisers, none of them in use. A name
    /// that is given twice is registered once.
    pub fn new(backends: Vec<String>, default_backend: String, config: TranscriptionConfig) -> (engine:
        TranscriptionEngine)
        ensures
            engine@.wf(),
            engine@.config == config,
            engine@.backends == distinct_texts(views(backends@)),
            engine@.default_backend == default_backend@,
            engine@.workers =~= Map::empty(),
            engine@.room_models =~= Map::empty(),
            engine@.broadcast_active =~= Set::empty(),
            engine@.playbacks =~= Map::empty(),
            engine@.next_handle == 0,
    {
        TranscriptionEngine {
            backends: distinct_names(&backends),
            default_backend,
            config,
            workers: new_numbers_by_text(),
            room_models: HashMap::new(),
            broadcast_active: new_numbers(),
            connection_playbacks: new_lists_by_text(),
            next_handle: 0,
        }
    }

    /// The engine's configuration.
    pub fn config(&self) -> (config: &TranscriptionConfig)
        ensures
            *config == self@.config,
    {
        &self.config
    }

    /// The name of the default recogniser.
    pub fn default_backend_name(&self) -> (name: &str)
        ensures
            name@ == self@.default_backend,
    {
        self.default_backend.as_str()
    }

    /// Marks the room as having a live broadcast task. Returns `true` to
    /// the caller that marked it: that caller starts the task. A second
    /// caller gets `false` and starts none.
    pub fn try_start_broadcast(&mut self, room_id: ObjectId) -> (claimed: bool)
        ensures
            old(self)@.wf() ==> final(self)@.wf(),
            (final(self)@.broadcast_active, claimed) == broadcast_claim(
                old(self)@.broadcast_active,
                room_id@ as u128,
            ),
            final(self)@ == (EngineView {
                broadcast_active: final(self)@.broadcast_active,
                ..old(self)@
            }),
    {
        add_number(&mut self.broadcast_active, room_id.value())
    }

    /// Removes the room's mark when its broadcast task ends.
    pub fn clear_broadcast(&mut self, room_id: &ObjectId)
        ensures
            old(self)@.wf() ==> final(self)@.wf(),
            final(self)@ == (EngineView {
                broadcast_active: old(self)@.broadcast_active.remove(room_id@ as u128),
                ..old(self)@
            }),
    {
        drop_number(&mut self.broadcast_active, room_id.value());
    }

    /// Enables transcription for a room with the named recogniser. Enabling
    /// again replaces the selection and changes nothing else.
    pub fn enable_room(&mut self, room_id: ObjectId, model_name: String)
        ensures
            old(self)@.wf() ==> final(self)@.wf(),
            final(self)@ == (EngineView {
                room_models: old(self)@.room_models.insert(room_id@ as u128, model_name@),
                ..old(self)@
            }),
    {
        self.room_models.insert(room_id.value(), model_name);
        proof {
            assert(self@.room_models =~= old(self)@.room_models.insert(
                room_id@ as u128,
                model_name@,
            ));
        }
    }

    /// Whether transcription is enabled for the room.
    pub fn is_enabled(&self, room_id: &ObjectId) -> (enabled: bool)
        ensures
            enabled == self@.room_models.dom().contains(room_id@ as u128),
    {
        let key: u128 = room_id.value();
        self.room_models.contains_key(&key)
    }

    /// The recogniser that serves the room, if any is registered.
    pub fn get_backend(&self, room_id: &ObjectId) -> (backend: Option<String>)
        ensures
            backend is Some <==> self@.backend_for(*room_id) is Some,
            backend is Some ==> backend.unwrap()@ == self@.backend_for(*room_id).unwrap(),
    {
        let key: u128 = room_id.value();
        let wanted: &String = match self.room_models.get(&key) {
            Some(name) => name,
            None => &self.default_backend,
        };
        if self.has_backend(wanted.as_str()) {
            Some(wanted.clone())
        } else if self.has_backend(self.default_backend.as_str()) {
            Some(self.default_backend.clone())
        } else if self.backends.len() > 0 {
            Some(self.backends[0].clone())
        } else {
            None
        }
    }

    fn has_backend(&self, name: &str) -> (b: bool)
        ensures
            b == self@.backends.contains(name@),
    {
        let mut i: usize = 0;
        while i < self.backends.len()
            invariant
                i <= self.backends.len(),
                forall|k: int| 0 <= k < i ==> self@.backends[k] != name@,
            decreases self.backends.len() - i,
        {
            if str_eq(self.backends[i].as_str(), name) {
                assert(self@.backends[i as int] == name@);
                return true;
            }
            i += 1;
        }
        false
    }

    /// The names of the registered recognisers, in the order of registration.
    pub fn available_backends(&self) -> (names: Vec<String>)
        ensures
            views(names@) == self@.backends,
    {
        let mut names: Vec<String> = Vec::new();
        let mut i: usize = 0;
        while i < self.backends.len()
            invariant
                i <= self.backends.len(),
                views(names@) == self@.backends.take(i as int),
            decreases self.backends.len() - i,
        {
            let ghost before = views(names@);
            let name: &String = &self.backends[i];
            names.push(name.clone());
            proof {
                assert(views(names@) =~= before.push(name@));
                assert(views(names@) =~= self@.backends.take(i as int + 1));
            }
            i += 1;
        }
        proof {
            assert(self@.backends.take(self@.backends.len() as int) =~= self@.backends);
        }
        names
    }

    /// The number of workers in the table.
    pub fn active_pipeline_count(&self) -> (count: usize)
        ensures
            count == self@.workers.dom().len(),
    {
        count_numbers_by_text(&self.workers)
    }

    /// Takes the worker under `key` out of the table and returns its
    /// handle, so that its task can be aborted. `None` where no worker
    /// holds the key.
    pub fn stop_pipeline(&mut self, key: &str) -> (handle: Option<u64>)
        ensures
            old(self)@.wf() ==> final(self)@.wf(),
            handle == (if old(self)@.workers.dom().contains(key@) {
                Some(old(self)@.workers[key@])
            } else {
                None::<u64>
            }),
            final(self)@ == (EngineView {
                workers: old(self)@.workers.remove(key@),
                ..old(self)@
            }),
    {
        take_number_by_text(&mut self.workers, key)
    }

    /// Stops the worker that transcribes a producer.
    pub fn stop_producer(&mut self, room_id: &ObjectId, producer_id: &str) -> (handle: Option<u64>)
        ensures
            old(self)@.wf() ==> final(self)@.wf(),
            handle == (if old(self)@.workers.dom().contains(
                worker_key_text(room_id@, producer_id@),
            ) {
                Some(old(self)@.workers[worker_key_text(room_id@, producer_id@)])
            } else {
                None::<u64>
            }),
            final(self)@ == (EngineView {
                workers: old(self)@.workers.remove(worker_key_text(room_id@, producer_id@)),
                ..old(self)@
            }),
    {
        let key = worker_key(room_id, producer_id);
        self.stop_pipeline(key.as_str())
    }

    /// Starts the pipeline of an audio producer: a worker that held the
    /// producer's key is taken out for aborting, and where a recogniser
    /// serves the room a new worker is entered under a fresh handle.
    pub fn start_pipeline(&mut self, room_id: &ObjectId, producer_id: &str) -> (start:
        PipelineStart)
        ensures
            old(self)@.wf() ==> final(self)@.wf(),
            start.key@ == worker_key_text(room_id@, producer_id@),
            start.replaced == (if old(self)@.workers.dom().contains(start.key@) {
                Some(old(self)@.workers[start.key@])
            } else {
                None::<u64>
            }),
            start.started is Some <==> old(self)@.backend_for(*room_id) is Some && old(
                self,
            )@.next_handle < u64::MAX,
            start.started is Some ==> {
                let s = start.started.unwrap();
                &&& s.backend@ == old(self)@.backend_for(*room_id).unwrap()
                &&& s.handle == old(self)@.next_handle
                &&& final(self)@ == (EngineView {
                    workers: old(self)@.workers.insert(start.key@, s.handle),
                    next_handle: (s.handle + 1) as u64,
                    ..old(self)@
                })
            },
            start.started is None ==> final(self)@ == (EngineView {
                workers: old(self)@.workers.remove(start.key@),
                ..old(self)@
            }),
    {
        let key = worker_key(room_id, producer_id);
        let replaced = take_number_by_text(&mut self.workers, key.as_str());
        let started = match self.get_backend(room_id) {
            Some(backend) => {
                if self.next_handle < u64::MAX {
                    let handle: u64 = self.next_handle;
                    put_number_by_text(&mut self.workers, key.clone(), handle);
                    self.next_handle = handle + 1;
                    proof {
                        assert(self@.workers =~= old(self)@.workers.insert(key@, handle));
                    }
                    Some(StartedWorker { backend, handle })
                } else {
                    None
                }
            },
            None => None,
        };
        PipelineStart { key, replaced, started }
    }

    /// Remembers that a connection started a playback, so that the playback
    /// can be stopped when the connection closes.
    pub fn track_playback(&mut self, connection_id: &str, playback_id: &str)
        ensures
            old(self)@.wf() ==> final(self)@.wf(),
            final(self)@ == (EngineView {
                playbacks: old(self)@.playbacks.insert(
                    connection_id@,
                    old(self)@.playbacks_of(connection_id@).push(playback_id@),
                ),
                ..old(self)@
            }),
    {
        let mut list: Vec<String> = match list_by_text(&self.connection_playbacks, connection_id) {
            Some(l) => l,
            None => Vec::new(),
        };
        let ghost before = views(list@);
        proof {
            if !old(self)@.playbacks.dom().contains(connection_id@) {
                assert(before =~= Seq::<Seq<char>>::empty());
            }
        }
        list.push(playback_id.to_owned());
        proof {
            assert(views(list@) =~= before.push(playback_id@));
        }
        put_list_by_text(&mut self.connection_playbacks, connection_id.to_owned(), list);
    }

    /// Stops every playback that a connection started, and forgets them.
    /// Returns the handles of those that were still running, in the order
    /// in which they were started.
    pub fn stop_connection_playbacks(&mut self, connection_id: &str) -> (stopped: Vec<u64>)
        ensures
            old(self)@.wf() ==> final(self)@.wf(),
            stopped@ == stop_each(
                old(self)@.workers,
                old(self)@.playbacks_of(connection_id@),
            ).1,
            final(self)@ == (EngineView {
                workers: stop_each(
                    old(self)@.workers,
                    old(self)@.playbacks_of(connection_id@),
                ).0,
                playbacks: old(self)@.playbacks.remove(connection_id@),
                ..old(self)@
            }),
    {
        let mut stopped: Vec<u64> = Vec::new();
        let list = match take_list_by_text(&mut self.connection_playbacks, connection_id) {
            Some(l) => l,
            None => {
                return stopped;
            },
        };
        let ghost keys = views(list@);
        let mut i: usize = 0;
        while i < list.len()
            invariant
                i <= list.len(),
                keys == views(list@),
                old(self)@.wf() ==> self@.wf(),
                self@ == (EngineView {
                    workers: stop_each(old(self)@.workers, keys.take(i as int)).0,
                    playbacks: old(self)@.playbacks.remove(connection_id@),
                    ..old(self)@
                }),
                stopped@ == stop_each(old(self)@.workers, keys.take(i as int)).1,
            decreases list.len() - i,
        {
            proof {
                assert(keys.take(i as int + 1).drop_last() =~= keys.take(i as int));
                assert(keys.take(i as int + 1).last() == list@[i as int]@);
            }
            match take_number_by_text(&mut self.workers, list[i].as_str()) {
                Some(handle) => {
                    stopped.push(handle);
                },
                None => {
                    proof {
                        let before = stop_each(old(self)@.workers, keys.take(i as int)).0;
                        assert(before.remove(list@[i as int]@) =~= before);
                    }
                },
            }
            i += 1;
        }
        proof {
            assert(keys.take(keys.len() as int) =~= keys);
        }
        stopped
    }

    /// Disables transcription for a room: the room's selection is
    /// removed, every worker of the room is taken out of the table and
    /// returned for aborting, and the room's broadcast mark is cleared.
    pub fn disable_room(&mut self, room_id: ObjectId) -> (stopped: Vec<StoppedWorker>)
        ensures
            old(self)@.wf() ==> final(self)@.wf(),
            stops_room_workers(stopped@, old(self)@.workers, room_id@),
            final(self)@ == (EngineView {
                room_models: old(self)@.room_models.remove(room_id@ as u128),
                workers: old(self)@.workers_outside(room_id),
                broadcast_active: old(self)@.broadcast_active.remove(room_id@ as u128),
                ..old(self)@
            }),
            forall|k: Seq<char>| #[trigger]
                final(self)@.workers.dom().contains(k) ==> !belongs_to_room(k, room_id@),
    {
        let room_key: u128 = room_id.value();
        self.room_models.remove(&room_key);
        proof {
            assert(self@.room_models =~= old(self)@.room_models.remove(room_id@ as u128));
        }
        let keys = texts_with_numbers(&self.workers);
        let ghost all = old(self)@.workers;
        let ghost names = views(keys@);
        let mut stopped: Vec<StoppedWorker> = Vec::new();
        let mut i: usize = 0;
        while i < keys.len()
            invariant
                i <= keys.len(),
                names == views(keys@),
                all == old(self)@.workers,
                lists_keys(names, all.dom()),
                old(self)@.wf() ==> self@.wf(),
                self@ == (EngineView {
                    room_models: old(self)@.room_models.remove(room_id@ as u128),
                    workers: self@.workers,
                    ..old(self)@
                }),
                self@.workers =~= Map::new(
                    |k: Seq<char>|
                        all.dom().contains(k) && !(belongs_to_room(k, room_id@) && names.take(
                            i as int,
                        ).contains(k)),
                    |k: Seq<char>| all[k],
                ),
                forall|j: int|
                    0 <= j < stopped@.len() ==> all.dom().contains((#[trigger] stopped@[j]).key@)
                        && belongs_to_room(stopped@[j].key@, room_id@) && stopped@[j].handle
                        == all[stopped@[j].key@] && names.take(i as int).contains(
                        stopped@[j].key@,
                    ),
                forall|a: int, b: int|
                    0 <= a < b < stopped@.len() ==> (#[trigger] stopped@[a]).key@ != (
                    #[trigger] stopped@[b]).key@,
                forall|k: Seq<char>|
                    names.take(i as int).contains(k) && belongs_to_room(k, room_id@)
                        ==> exists|j: int|
                        0 <= j < stopped@.len() && (#[trigger] stopped@[j]).key@ == k,
            decreases keys.len() - i,
        {
            let ghost name = names[i as int];
            let ghost seen = names.take(i as int);
            let ghost before = stopped@;
            proof {
                assert(name == keys@[i as int]@);
                assert(names.contains(name));
                assert(names.take(i as int + 1) =~= seen.push(name));
                assert(!seen.contains(name)) by {
                    if seen.contains(name) {
                        let j = choose|j: int| 0 <= j < seen.len() && seen[j] == name;
                        assert(names[j] == names[i as int]);
                    }
                }
                assert forall|k: Seq<char>| names.take(i as int + 1).contains(k) <==> (
                seen.contains(k) || k == name) by {
                    if seen.contains(k) {
                        let j = choose|j: int| 0 <= j < seen.len() && seen[j] == k;
                        assert(names.take(i as int + 1)[j] == k);
                    }
                    if k == name {
                        assert(names.take(i as int + 1)[i as int] == k);
                    }
                    if names.take(i as int + 1).contains(k) {
                        let next = names.take(i as int + 1);
                        let j = choose|j: int| 0 <= j < next.len() && next[j] == k;
                        if j < i {
                            assert(seen[j] == k);
                        }
                    }
                }
            }
            if key_belongs_to_room(keys[i].as_str(), &room_id) {
                match take_number_by_text(&mut self.workers, keys[i].as_str()) {
                    Some(handle) => {
                        stopped.push(StoppedWorker { key: keys[i].clone(), handle });
                        proof {
                            let last = stopped@.len() - 1;
                            assert(stopped@[last].key@ == name);
                            assert forall|a: int, b: int|
                                0 <= a < b < stopped@.len() implies (
                            #[trigger] stopped@[a]).key@ != (#[trigger] stopped@[b]).key@ by {
                                if b == last {
                                    assert(stopped@[a] == before[a]);
                                    assert(seen.contains(before[a].key@));
                                } else {
                                    assert(stopped@[a] == before[a]);
                                    assert(stopped@[b] == before[b]);
                                }
                            }
                            assert forall|j: int| 0 <= j < stopped@.len() implies all.dom().contains(
                                (#[trigger] stopped@[j]).key@,
                            ) && belongs_to_room(stopped@[j].key@, room_id@) && stopped@[j].handle
                                == all[stopped@[j].key@] && names.take(i as int + 1).contains(
                                stopped@[j].key@,
                            ) by {
                                if j < last {
                                    assert(stopped@[j] == before[j]);
                                }
                            }
                            assert forall|k: Seq<char>|
                                names.take(i as int + 1).contains(k) && belongs_to_room(
                                    k,
                                    room_id@,
                                ) implies exists|j: int|
                                0 <= j < stopped@.len() && (#[trigger] stopped@[j]).key@ == k by {
                                if k == name {
                                    assert(stopped@[last].key@ == k);
                                } else {
                                    let j = choose|j: int|
                                        0 <= j < before.len() && (#[trigger] before[j]).key@ == k;
                                    assert(stopped@[j] == before[j]);
                                }
                            }
                        }
                    },
                    None => {
                        proof {
                            assert(all.dom().contains(name));
                            assert(false);
                        }
                    },
                }
            }
            i += 1;
        }
        drop_number(&mut self.broadcast_active, room_key);
        proof {
            assert(names.take(names.len() as int) =~= names);
            assert(self@.workers =~= old(self)@.workers_outside(room_id));
            assert forall|k: Seq<char>|
                all.dom().contains(k) && belongs_to_room(k, room_id@) implies exists|j: int|
                0 <= j < stopped@.len() && (#[trigger] stopped@[j]).key@ == k by {
                assert(names.contains(k));
            }
        }
        stopped
    }

    /// Enters a file playback for the room under the key made from
    /// `unique`, where a recogniser serves the room. Returns the playback's
    /// identifier, which is its worker key, with what to spawn.
    pub fn begin_file_playback(&mut self, room_id: &ObjectId, unique: &str) -> (playback: Option<
        (String, StartedWorker),
    >)
        ensures
            old(self)@.wf() ==> final(self)@.wf(),
            playback is Some <==> old(self)@.backend_for(*room_id) is Some && old(
                self,
            )@.next_handle < u64::MAX,
            playback is None ==> final(self)@ == old(self)@,
            playback is Some ==> {
                let (id, s) = playback.unwrap();
                &&& id@ == playback_key_text(room_id@, unique@)
                &&& s.backend@ == old(self)@.backend_for(*room_id).unwrap()
                &&& s.handle == old(self)@.next_handle
                &&& final(self)@ == (EngineView {
                    workers: old(self)@.workers.insert(id@, s.handle),
                    next_handle: (s.handle + 1) as u64,
                    ..old(self)@
                })
            },
    {
        let backend = match self.get_backend(room_id) {
            Some(b) => b,
            None => {
                return None;
            },
        };
        if self.next_handle == u64::MAX {
            return None;
        }
        let id = playback_key(room_id, unique);
        let handle: u64 = self.next_handle;
        put_number_by_text(&mut self.workers, id.clone(), handle);
        self.next_handle = handle + 1;
        Some((id, StartedWorker { backend, handle }))
    }

    /// Starts a file playback for the room under a fresh identifier. What
    /// holds of the result for every identifier is what
    /// [`Self::begin_file_playback`] states.
    pub fn start_file_playback(&mut self, room_id: &ObjectId) -> (playback: Option<
        (String, StartedWorker),
    >)
        ensures
            old(self)@.wf() ==> final(self)@.wf(),
            playback is Some <==> old(self)@.backend_for(*room_id) is Some && old(
                self,
            )@.next_handle < u64::MAX,
            playback is None ==> final(self)@ == old(self)@,
            playback is Some ==> {
                let (id, s) = playback.unwrap();
                &&& ("file:"@ + hex_text(room_id@, 24) + seq![':']).is_prefix_of(id@)
                &&& belongs_to_room(id@, room_id@)
                &&& s.backend@ == old(self)@.backend_for(*room_id).unwrap()
                &&& s.handle == old(self)@.next_handle
                &&& final(self)@ == (EngineView {
                    workers: old(self)@.workers.insert(id@, s.handle),
                    next_handle: (s.handle + 1) as u64,
                    ..old(self)@
                })
            },
    {
        let unique = fresh_uuid();
        let playback = self.begin_file_playback(room_id, unique.as_str());
        proof {
            if playback is Some {
                let id = playback.unwrap().0@;
                let head = "file:"@ + hex_text(room_id@, 24);
                assert(id.subrange(0, head.len() as int) =~= head);
                assert(id.subrange(0, (head + seq![':']).len() as int) =~= head + seq![':']);
            }
        }
        playback
    }
}

/// Taking a worker that runs out of the table leaves one worker fewer.
pub proof fn lemma_stopping_counts_one_less(engine: EngineView, key: Seq<char>)
    requires
        engine.wf(),
        engine.workers.dom().contains(key),
    ensures
        engine.workers.remove(key).dom().len() + 1 == engine.workers.dom().len(),
{
}

/// Of two claims on a room's broadcast, one after the other, the second is
/// refused: a room gets one broadcast task, however often transcription is
/// enabled for it.
pub proof fn lemma_one_broadcast_per_room(active: Set<u128>, room: u128)
    ensures
        !broadcast_claim(broadcast_claim(active, room).0, room).1,
        broadcast_claim(broadcast_claim(active, room).0, room).0 == broadcast_claim(
            active,
            room,
        ).0,
{
    assert(active.insert(room).insert(room) =~= active.insert(room));
}

/// Enabling transcription for a room twice with the same recogniser
/// leaves the engine as enabling it once does.
pub proof fn lemma_enabling_twice_changes_nothing(
    models: Map<u128, Seq<char>>,
    room: u128,
    model: Seq<char>,
)
    ensures
        models.insert(room, model).insert(room, model) == models.insert(room, model),
{
    assert(models.insert(room, model).insert(room, model) =~= models.insert(room, model));
}

} // verus!
