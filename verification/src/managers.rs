//! Sessions and the session registry that owns them.

use std::collections::HashMap;
use std::collections::VecDeque;
use vstd::prelude::*;
use vstd::std_specs::iter::IteratorSpec;
use crate::chat::{
    add_history, ai_view, apply_response, finish_result, hist_push, hist_view, outbound_views,
    payload_json, prepare_request, Completion, CompletionParams, CompletionRole, CompletionView,
    TransportOutcome, ERROR_TEXT,
};
use crate::model::Model;
use crate::ClientError;

verus! {

broadcast use vstd::std_specs::hash::group_hash_axioms;

/// One conversation, as its parts' abstract values.
pub struct ChatView {
    pub title: Option<Seq<char>>,
    pub model: Seq<char>,
    pub params: CompletionParams,
    pub history: Option<Seq<CompletionView>>,
}

/// One conversation: an optional title, the model it is bound to, its
/// generation parameters, and its newest-first history (absent when the
/// session keeps no memory).
#[derive(Debug)]
pub struct Chat {
    pub title: Option<String>,
    pub model: Model,
    pub global_params: CompletionParams,
    pub history: Option<VecDeque<Completion>>,
}

impl View for Chat {
    type V = ChatView;

    open spec fn view(&self) -> ChatView {
        ChatView {
            title: match self.title {
                Option::None => Option::None,
                Option::Some(t) => Option::Some(t@),
            },
            model: self.model@,
            params: self.global_params,
            history: hist_view(self.history),
        }
    }
}

/// A conversation after one turn is recorded at the front of its history.
pub open spec fn chat_after_push(c: ChatView, m: CompletionView) -> ChatView {
    ChatView { history: hist_push(c.history, m), ..c }
}

/// The parameters every new session starts with.
pub open spec fn default_params() -> CompletionParams {
    CompletionParams {
        max_tokens: 512,
        frequency_penalty: 700,
        top_p: 700,
        temperature: 700,
        stream: false,
    }
}

impl Chat {
    /// A new session bound to `model`, untitled, with default parameters and
    /// no history support.
    pub fn new(model: Model) -> (c: Chat)
        ensures
            c@ == (ChatView {
                title: Option::None,
                model: model@,
                params: default_params(),
                history: Option::None,
            }),
    {
        Chat {
            title: None,
            model,
            global_params: CompletionParams::new(512, 700, 700, 700, false),
            history: None,
        }
    }

    /// Gives the session a human title.
    pub fn with_title(&mut self, title: String)
        ensures
            final(self)@ == (ChatView { title: Option::Some(title@), ..old(self)@ }),
    {
        self.title = Some(title);
    }

    /// Turns history accumulation on, starting from an empty transcript.
    pub fn with_history(&mut self)
        ensures
            final(self)@ == (ChatView {
                history: Option::Some(Seq::<CompletionView>::empty()),
                ..old(self)@
            }),
    {
        self.history = Some(VecDeque::new());
        proof {
            let d = self.history->Some_0;
            assert(d@.map_values(|c: Completion| c@) =~= Seq::<CompletionView>::empty());
        }
    }

    /// Records the submitted turn and builds the request body for it; fails,
    /// touching nothing, only when no API key is configured.
    pub fn begin_completion(&mut self, api_key: &str, msg: Completion) -> (r: Result<
        String,
        ClientError,
    >)
        ensures
            match r {
                Result::Ok(body) => {
                    &&& api_key@.len() > 0
                    &&& final(self)@ == chat_after_push(old(self)@, msg@)
                    &&& body@ == payload_json(
                        old(self)@.model,
                        old(self)@.params,
                        outbound_views(msg@, old(self)@.history),
                    )
                },
                Result::Err(e) => {
                    &&& e == ClientError::MissingCredential
                    &&& api_key@.len() == 0
                    &&& final(self)@ == old(self)@
                },
            },
    {
        if api_key.is_empty() {
            return Err(ClientError::MissingCredential);
        }
        let body = prepare_request(&self.model, &self.global_params, msg, &mut self.history);
        Ok(body)
    }

    /// Settles one transport outcome: a success's content becomes the newest
    /// turn; on any failure a fixed error turn is recorded instead, so the
    /// transcript shows a response-shaped entry either way, and the failure
    /// is still returned.
    pub fn finish_completion(&mut self, outcome: TransportOutcome) -> (r: Result<(), ClientError>)
        ensures
            match finish_result(outcome) {
                Result::Ok(c) => {
                    &&& r is Ok
                    &&& final(self)@ == chat_after_push(old(self)@, ai_view(c))
                },
                Result::Err(e) => {
                    &&& r == Err::<(), ClientError>(e)
                    &&& final(self)@ == chat_after_push(old(self)@, ai_view(ERROR_TEXT@))
                },
            },
    {
        let r = apply_response(&mut self.history, outcome);
        match r {
            Result::Ok(()) => Ok(()),
            Result::Err(e) => {
                add_history(&mut self.history, Completion::new(CompletionRole::AI, ERROR_TEXT));
                Err(e)
            },
        }
    }
}

/// The registry's abstract value: the current-session marker (0 when unset),
/// the sessions by identifier, whether saving is enabled, and the model
/// catalog.
pub struct RegistryView {
    pub current: u128,
    pub chats: Map<u128, ChatView>,
    pub local_save: bool,
    pub models: Seq<Seq<char>>,
}

pub open spec fn chats_view(m: Map<u128, Chat>) -> Map<u128, ChatView> {
    Map::new(|k: u128| m.dom().contains(k), |k: u128| m[k]@)
}

/// The keyed collection of all sessions plus the current-session marker; the
/// identifier 0 is reserved to mean "no current session".
#[derive(Debug)]
pub struct ChatManager {
    current_chat: u128,
    chats: HashMap<u128, Chat>,
    local_save: bool,
    models: Vec<Model>,
}

impl View for ChatManager {
    type V = RegistryView;

    closed spec fn view(&self) -> RegistryView {
        RegistryView {
            current: self.current_chat,
            chats: chats_view(self.chats@),
            local_save: self.local_save,
            models: self.models@.map_values(|m: Model| m@),
        }
    }
}

/// Relies on uuid::Uuid::new_v4: a freshly drawn random identifier. A
/// version-4 UUID always has its version bits set, so it is never the nil
/// (all-zero) value.
#[verifier::external_body]
fn fresh_uuid() -> (r: u128)
    ensures
        r != 0,
{
    uuid::Uuid::new_v4().as_u128()
}

impl ChatManager {
    /// The marker, when set, names a live session, and no session sits under
    /// the reserved identifier 0.
    pub open spec fn wf(&self) -> bool {
        &&& !self@.chats.contains_key(0)
        &&& (self@.current != 0 ==> self@.chats.contains_key(self@.current))
    }

    /// An empty registry: no sessions, no current session, saving enabled,
    /// no models yet.
    pub fn new() -> (m: ChatManager)
        ensures
            m.wf(),
            m@ == (RegistryView {
                current: 0,
                chats: Map::<u128, ChatView>::empty(),
                local_save: true,
                models: Seq::<Seq<char>>::empty(),
            }),
    {
        let m = ChatManager {
            current_chat: 0,
            chats: HashMap::new(),
            local_save: true,
            models: Vec::new(),
        };
        proof {
            assert(chats_view(m.chats@) =~= Map::<u128, ChatView>::empty());
            assert(m.models@.map_values(|mo: Model| mo@) =~= Seq::<Seq<char>>::empty());
        }
        m
    }

    /// Whether a session with the given identifier is present.
    pub fn chat_exists(&self, chat_uuid: u128) -> (r: bool)
        ensures
            r == self@.chats.contains_key(chat_uuid),
    {
        self.chats.contains_key(&chat_uuid)
    }

    /// Creates a session bound to `model` under a fresh identifier; the new
    /// session becomes current only when no current session was set. Never
    /// fails; returns the identifier.
    pub fn create_new_chat(&mut self, model: Model) -> (r: u128)
        requires
            old(self).wf(),
        ensures
            final(self).wf(),
            r != 0,
            final(self)@.chats == old(self)@.chats.insert(
                r,
                (ChatView {
                    title: Option::None,
                    model: model@,
                    params: default_params(),
                    history: Option::None,
                }),
            ),
            final(self)@.current == if old(self)@.current == 0 {
                r
            } else {
                old(self)@.current
            },
            final(self)@.local_save == old(self)@.local_save,
            final(self)@.models == old(self)@.models,
    {
        let chat_uuid = fresh_uuid();
        let chat = Chat::new(model);
        let ghost chatv = chat@;
        let ghost before = self.chats@;
        self.chats.insert(chat_uuid, chat);
        if self.current_chat == 0 {
            self.current_chat = chat_uuid;
        }
        proof {
            assert(chats_view(self.chats@) =~= chats_view(before).insert(chat_uuid, chatv));
        }
        chat_uuid
    }

    /// Deletes the session under the given identifier, unsetting the marker
    /// when it pointed there; fails, touching nothing, exactly when the
    /// identifier is absent.
    pub fn remove_chat(&mut self, chat_uuid: u128) -> (r: Result<(), ClientError>)
        requires
            old(self).wf(),
        ensures
            final(self).wf(),
            match r {
                Result::Ok(()) => {
                    &&& old(self)@.chats.contains_key(chat_uuid)
                    &&& final(self)@.chats == old(self)@.chats.remove(chat_uuid)
                    &&& final(self)@.current == if old(self)@.current == chat_uuid {
                        0u128
                    } else {
                        old(self)@.current
                    }
                    &&& final(self)@.local_save == old(self)@.local_save
                    &&& final(self)@.models == old(self)@.models
                },
                Result::Err(e) => {
                    &&& e == ClientError::NotFound
                    &&& !old(self)@.chats.contains_key(chat_uuid)
                    &&& final(self)@ == old(self)@
                },
            },
    {
        if !self.chats.contains_key(&chat_uuid) {
            return Err(ClientError::NotFound);
        }
        let ghost before = self.chats@;
        self.chats.remove(&chat_uuid);
        if self.current_chat == chat_uuid {
            self.current_chat = 0;
        }
        proof {
            assert(chats_view(self.chats@) =~= chats_view(before).remove(chat_uuid));
        }
        Ok(())
    }

    /// The session under the given identifier, or absence.
    pub fn get_chat(&self, chat_uuid: u128) -> (r: Option<&Chat>)
        ensures
            match r {
                Option::Some(c) => {
                    &&& self@.chats.contains_key(chat_uuid)
                    &&& c@ == self@.chats[chat_uuid]
                },
                Option::None => !self@.chats.contains_key(chat_uuid),
            },
    {
        self.chats.get(&chat_uuid)
    }

    /// Makes the session under the given identifier current; fails, touching
    /// nothing, exactly when the identifier is absent.
    pub fn set_current_chat(&mut self, chat_uuid: u128) -> (r: Result<(), ClientError>)
        requires
            old(self).wf(),
        ensures
            final(self).wf(),
            match r {
                Result::Ok(()) => {
                    &&& old(self)@.chats.contains_key(chat_uuid)
                    &&& final(self)@ == (RegistryView { current: chat_uuid, ..old(self)@ })
                },
                Result::Err(e) => {
                    &&& e == ClientError::NotFound
                    &&& !old(self)@.chats.contains_key(chat_uuid)
                    &&& final(self)@ == old(self)@
                },
            },
    {
        if !self.chats.contains_key(&chat_uuid) {
            return Err(ClientError::NotFound);
        }
        self.current_chat = chat_uuid;
        Ok(())
    }

    /// The current session and its identifier, or absence when the marker is
    /// unset or its target no longer exists.
    pub fn get_current_chat(&self) -> (r: Option<(u128, &Chat)>)
        requires
            self.wf(),
        ensures
            match r {
                Option::Some((id, c)) => {
                    &&& id == self@.current
                    &&& id != 0
                    &&& self@.chats.contains_key(id)
                    &&& c@ == self@.chats[id]
                },
                Option::None => self@.current == 0 || !self@.chats.contains_key(self@.current),
            },
    {
        match self.chats.get(&self.current_chat) {
            Option::Some(c) => Some((self.current_chat, c)),
            Option::None => None,
        }
    }

    /// Records the submitted turn in the current session and builds its
    /// request body; fails, touching nothing, when no current session exists
    /// or no API key is configured.
    pub fn begin_current_completion(&mut self, api_key: &str, msg: Completion) -> (r: Result<
        String,
        ClientError,
    >)
        requires
            old(self).wf(),
        ensures
            final(self).wf(),
            final(self)@.current == old(self)@.current,
            final(self)@.local_save == old(self)@.local_save,
            final(self)@.models == old(self)@.models,
            match r {
                Result::Ok(body) => {
                    let cur = old(self)@.current;
                    let chat = old(self)@.chats[cur];
                    &&& cur != 0
                    &&& old(self)@.chats.contains_key(cur)
                    &&& api_key@.len() > 0
                    &&& final(self)@.chats == old(self)@.chats.insert(
                        cur,
                        chat_after_push(chat, msg@),
                    )
                    &&& body@ == payload_json(
                        chat.model,
                        chat.params,
                        outbound_views(msg@, chat.history),
                    )
                },
                Result::Err(e) => {
                    &&& final(self)@ == old(self)@
                    &&& if old(self)@.current == 0 || !old(self)@.chats.contains_key(
                        old(self)@.current,
                    ) {
                        e == ClientError::NotFound
                    } else {
                        e == ClientError::MissingCredential && api_key@.len() == 0
                    }
                },
            },
    {
        if !self.chats.contains_key(&self.current_chat) {
            return Err(ClientError::NotFound);
        }
        let id = self.current_chat;
        let ghost before = self.chats@;
        let mut chat = self.chats.remove(&id).unwrap();
        let r = chat.begin_completion(api_key, msg);
        let ghost chatv = chat@;
        self.chats.insert(id, chat);
        match r {
            Result::Ok(body) => {
                proof {
                    assert(chats_view(self.chats@) =~= chats_view(before).insert(id, chatv));
                }
                Ok(body)
            },
            Result::Err(e) => {
                proof {
                    assert(chats_view(self.chats@) =~= chats_view(before));
                }
                Err(e)
            },
        }
    }

    /// Settles one transport outcome in the current session, as
    /// `Chat::finish_completion` does; fails, touching nothing, when no
    /// current session exists.
    pub fn finish_current_completion(&mut self, outcome: TransportOutcome) -> (r: Result<
        (),
        ClientError,
    >)
        requires
            old(self).wf(),
        ensures
            final(self).wf(),
            final(self)@.current == old(self)@.current,
            final(self)@.local_save == old(self)@.local_save,
            final(self)@.models == old(self)@.models,
            ({
                let cur = old(self)@.current;
                if cur == 0 || !old(self)@.chats.contains_key(cur) {
                    r == Err::<(), ClientError>(ClientError::NotFound) && final(self)@ == old(
                        self,
                    )@
                } else {
                    let chat = old(self)@.chats[cur];
                    match finish_result(outcome) {
                        Result::Ok(c) => {
                            &&& r is Ok
                            &&& final(self)@.chats == old(self)@.chats.insert(
                                cur,
                                chat_after_push(chat, ai_view(c)),
                            )
                        },
                        Result::Err(e) => {
                            &&& r == Err::<(), ClientError>(e)
                            &&& final(self)@.chats == old(self)@.chats.insert(
                                cur,
                                chat_after_push(chat, ai_view(ERROR_TEXT@)),
                            )
                        },
                    }
                }
            }),
    {
        if !self.chats.contains_key(&self.current_chat) {
            return Err(ClientError::NotFound);
        }
        let id = self.current_chat;
        let ghost before = self.chats@;
        let mut chat = self.chats.remove(&id).unwrap();
        let r = chat.finish_completion(outcome);
        let ghost chatv = chat@;
        self.chats.insert(id, chat);
        proof {
            assert(chats_view(self.chats@) =~= chats_view(before).insert(id, chatv));
        }
        r
    }

    /// Turns history accumulation on in the session under the given
    /// identifier, starting from an empty transcript; fails, touching
    /// nothing, exactly when the identifier is absent.
    pub fn enable_chat_history(&mut self, chat_uuid: u128) -> (r: Result<(), ClientError>)
        requires
            old(self).wf(),
        ensures
            final(self).wf(),
            final(self)@.current == old(self)@.current,
            final(self)@.local_save == old(self)@.local_save,
            final(self)@.models == old(self)@.models,
            match r {
                Result::Ok(()) => {
                    &&& old(self)@.chats.contains_key(chat_uuid)
                    &&& final(self)@.chats == old(self)@.chats.insert(
                        chat_uuid,
                        (ChatView {
                            history: Option::Some(Seq::<CompletionView>::empty()),
                            ..old(self)@.chats[chat_uuid]
                        }),
                    )
                },
                Result::Err(e) => {
                    &&& e == ClientError::NotFound
                    &&& !old(self)@.chats.contains_key(chat_uuid)
                    &&& final(self)@ == old(self)@
                },
            },
    {
        if !self.chats.contains_key(&chat_uuid) {
            return Err(ClientError::NotFound);
        }
        let ghost before = self.chats@;
        let mut chat = self.chats.remove(&chat_uuid).unwrap();
        chat.with_history();
        let ghost chatv = chat@;
        self.chats.insert(chat_uuid, chat);
        proof {
            assert(chats_view(self.chats@) =~= chats_view(before).insert(chat_uuid, chatv));
        }
        Ok(())
    }

    /// Gives the session under the given identifier a human title; fails,
    /// touching nothing, exactly when the identifier is absent.
    pub fn set_chat_title(&mut self, chat_uuid: u128, title: String) -> (r: Result<
        (),
        ClientError,
    >)
        requires
            old(self).wf(),
        ensures
            final(self).wf(),
            final(self)@.current == old(self)@.current,
            final(self)@.local_save == old(self)@.local_save,
            final(self)@.models == old(self)@.models,
            match r {
                Result::Ok(()) => {
                    &&& old(self)@.chats.contains_key(chat_uuid)
                    &&& final(self)@.chats == old(self)@.chats.insert(
                        chat_uuid,
                        (ChatView {
                            title: Option::Some(title@),
                            ..old(self)@.chats[chat_uuid]
                        }),
                    )
                },
                Result::Err(e) => {
                    &&& e == ClientError::NotFound
                    &&& !old(self)@.chats.contains_key(chat_uuid)
                    &&& final(self)@ == old(self)@
                },
            },
    {
        if !self.chats.contains_key(&chat_uuid) {
            return Err(ClientError::NotFound);
        }
        let ghost before = self.chats@;
        let mut chat = self.chats.remove(&chat_uuid).unwrap();
        chat.with_title(title);
        let ghost chatv = chat@;
        self.chats.insert(chat_uuid, chat);
        proof {
            assert(chats_view(self.chats@) =~= chats_view(before).insert(chat_uuid, chatv));
        }
        Ok(())
    }

    /// Whether saving to the durable store is enabled.
    pub fn local_save(&self) -> (r: bool)
        ensures
            r == self@.local_save,
    {
        self.local_save
    }

    /// Turns saving to the durable store on or off.
    pub fn set_local_save(&mut self, enabled: bool)
        requires
            old(self).wf(),
        ensures
            final(self).wf(),
            final(self)@ == (RegistryView { local_save: enabled, ..old(self)@ }),
    {
        self.local_save = enabled;
    }

    /// The model catalog as last refreshed.
    pub fn models(&self) -> (r: &Vec<Model>)
        ensures
            r@.map_values(|m: Model| m@) == self@.models,
    {
        &self.models
    }

    /// Replaces the model catalog; a persisted catalog is never trusted, so
    /// a load always refreshes it through this.
    pub fn set_models(&mut self, models: Vec<Model>)
        requires
            old(self).wf(),
        ensures
            final(self).wf(),
            final(self)@ == (RegistryView {
                models: models@.map_values(|m: Model| m@),
                ..old(self)@
            }),
    {
        self.models = models;
    }

    /// The current-session marker as stored: 0 when unset.
    pub fn current_chat_id(&self) -> (r: u128)
        ensures
            r == self@.current,
    {
        self.current_chat
    }

    /// The identifiers of all sessions, each once, in no promised order.
    pub fn chat_ids(&self) -> (r: Vec<u128>)
        ensures
            r@.to_set() == self@.chats.dom(),
            r@.no_duplicates(),
    {
        let ghost key_seq = vstd::std_specs::hash::spec_keys_iter(&self.chats).remaining().unref();
        let mut ids: Vec<u128> = Vec::new();
        proof {
            assert(ids@ =~= key_seq.subrange(0, 0));
        }
        for k in it: self.chats.keys()
            invariant
                it.seq().unref() == key_seq,
                ids@ == key_seq.subrange(0, it.index() as int),
        {
            proof {
                assert(*k == key_seq[it.index() as int]);
                assert(ids@.push(*k) =~= key_seq.subrange(0, it.index() + 1));
            }
            ids.push(*k);
        }
        proof {
            assert(ids@ =~= key_seq);
            assert(chats_view(self.chats@).dom() =~= self.chats@.dom());
            assert forall|a: int, b: int|
                0 <= a < b < key_seq.len() implies key_seq[a] != key_seq[b] by {
                let inner = vstd::std_specs::hash::spec_keys_iter(&self.chats).remaining();
                assert(inner.no_duplicates());
                assert(key_seq[a] == *inner[a]);
                assert(key_seq[b] == *inner[b]);
            }
        }
        ids
    }
}

/// The identifiers of stored session entries, in order.
pub open spec fn ids_of(s: Seq<(u128, Chat)>) -> Seq<u128> {
    s.map_values(|e: (u128, Chat)| e.0)
}

/// The session map a sequence of stored entries describes.
pub open spec fn entries_view(s: Seq<(u128, Chat)>) -> Map<u128, ChatView>
    decreases s.len(),
{
    if s.len() == 0 {
        Map::empty()
    } else {
        entries_view(s.drop_last()).insert(s.last().0, s.last().1@)
    }
}

/// When stored parts describe a registry: no reserved or repeated identifier,
/// and a set marker names a stored session.
pub open spec fn valid_parts(s: Seq<(u128, Chat)>, current: u128) -> bool {
    &&& forall|i: int| 0 <= i < s.len() ==> ids_of(s)[i] != 0
    &&& ids_of(s).no_duplicates()
    &&& (current != 0 ==> ids_of(s).contains(current))
}

impl ChatManager {
    /// A registry rebuilt from stored parts, or absence when the parts are
    /// malformed (a reserved or repeated identifier, or a marker naming no
    /// stored session).
    #[verifier::loop_isolation(false)]
    pub fn from_parts(
        current_chat: u128,
        chats: Vec<(u128, Chat)>,
        local_save: bool,
        models: Vec<Model>,
    ) -> (r: Option<ChatManager>)
        ensures
            match r {
                Option::Some(m) => {
                    &&& valid_parts(chats@, current_chat)
                    &&& m.wf()
                    &&& m@ == (RegistryView {
                        current: current_chat,
                        chats: entries_view(chats@),
                        local_save,
                        models: models@.map_values(|mo: Model| mo@),
                    })
                },
                Option::None => !valid_parts(chats@, current_chat),
            },
    {
        let ghost all = chats@;
        let n = chats.len();
        let mut rest = chats;
        let mut map: HashMap<u128, Chat> = HashMap::new();
        let mut i: usize = 0;
        proof {
            assert(chats_view(map@) =~= entries_view(all.subrange(0, 0)));
            assert(map@.dom() =~= ids_of(all.subrange(0, 0)).to_set());
        }
        while i < n
            invariant
                i <= n,
                n == all.len(),
                rest@ == all.subrange(i as int, n as int),
                chats_view(map@) == entries_view(all.subrange(0, i as int)),
                map@.dom() == ids_of(all.subrange(0, i as int)).to_set(),
                forall|k: int| 0 <= k < i ==> ids_of(all)[k] != 0,
                ids_of(all.subrange(0, i as int)).no_duplicates(),
            decreases n - i,
        {
            let ghost seen = all.subrange(0, i as int);
            let (id, chat) = rest.remove(0);
            proof {
                assert(all.subrange(i as int, n as int)[0] == all[i as int]);
                assert(id == ids_of(all)[i as int]);
            }
            if id == 0 {
                proof {
                    assert(!valid_parts(all, current_chat));
                }
                return None;
            }
            if map.contains_key(&id) {
                proof {
                    assert(ids_of(seen).contains(id));
                    let j = choose|j: int| 0 <= j < seen.len() && ids_of(seen)[j] == id;
                    assert(ids_of(all)[j] == ids_of(seen)[j]);
                    assert(!ids_of(all).no_duplicates());
                    assert(!valid_parts(all, current_chat));
                }
                return None;
            }
            let ghost chatv = chat@;
            let ghost before = map@;
            map.insert(id, chat);
            proof {
                let next = all.subrange(0, i + 1);
                let pushed = ids_of(seen).push(id);
                assert(next.drop_last() =~= seen);
                assert(next.last() == all[i as int]);
                assert(chats_view(map@) =~= chats_view(before).insert(id, chatv));
                assert(ids_of(next) =~= pushed);
                assert forall|x: u128| pushed.to_set().contains(x) implies map@.dom().contains(
                    x,
                ) by {
                    let j = choose|j: int| 0 <= j < pushed.len() && pushed[j] == x;
                    if j < ids_of(seen).len() {
                        assert(ids_of(seen).contains(x));
                        assert(before.dom().contains(x));
                    }
                }
                assert forall|x: u128| map@.dom().contains(x) implies pushed.to_set().contains(
                    x,
                ) by {
                    if before.dom().contains(x) {
                        let j = choose|j: int|
                            0 <= j < ids_of(seen).len() && ids_of(seen)[j] == x;
                        assert(pushed[j] == x);
                        assert(pushed.contains(x));
                    } else {
                        assert(pushed[ids_of(seen).len() as int] == x);
                        assert(pushed.contains(x));
                    }
                }
                assert(map@.dom() =~= ids_of(next).to_set());
                assert forall|a: int, b: int|
                    0 <= a < b < ids_of(next).len() implies ids_of(next)[a] != ids_of(next)[b] by {
                    if b == i {
                        assert(ids_of(seen).contains(ids_of(seen)[a]));
                        assert(before.dom().contains(ids_of(seen)[a]));
                    }
                }
                assert(rest@ =~= all.subrange(i + 1, n as int));
            }
            i = i + 1;
        }
        proof {
            assert(all.subrange(0, n as int) =~= all);
            assert(ids_of(all.subrange(0, n as int)) =~= ids_of(all));
        }
        if current_chat != 0 && !map.contains_key(&current_chat) {
            proof {
                assert(!ids_of(all).to_set().contains(current_chat));
                assert(!valid_parts(all, current_chat));
            }
            return None;
        }
        let m = ChatManager { current_chat, chats: map, local_save, models };
        proof {
            assert(!ids_of(all).to_set().contains(0u128));
            assert(m.wf());
        }
        Some(m)
    }
}

} // verus!
