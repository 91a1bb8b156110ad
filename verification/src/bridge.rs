//! Bridge state: the last activity of each socket, kept for web clients that
//! join late, and the messages broadcast to the bridge servers.

use vstd::prelude::*;
use crate::config::Config;
use crate::keyed::{
    distinct_keys, keyed_map, lemma_keyed_map_absent, lemma_keyed_map_index,
    lemma_keyed_map_push, lemma_keyed_map_remove, lemma_keyed_map_update,
};
use crate::protocol::Protocol;
use crate::types::{ActivityMessage, ActivityMessageModel};

verus! {

/// The socket id and model of each stored message.
pub open spec fn message_pairs(v: Seq<ActivityMessage>) -> Seq<(Seq<char>, ActivityMessageModel)> {
    v.map_values(|m: ActivityMessage| (m.socket_id@, m@))
}

/// The stored messages that carry an activity.
pub open spec fn with_activity(m: Map<Seq<char>, ActivityMessageModel>) -> Map<
    Seq<char>,
    ActivityMessageModel,
> {
    Map::new(|k: Seq<char>| m.contains_key(k) && m[k].activity is Some, |k: Seq<char>| m[k])
}

/// What the store gives back of a write: after `send_activity(msg)` the
/// socket's stored message is `msg`, a client that joins later receives it
/// exactly when it carries an activity, and clearing the socket removes it
/// while the other sockets keep theirs.
pub proof fn law_store_then_read(
    m: Map<Seq<char>, ActivityMessageModel>,
    msg: ActivityMessageModel,
    other: Seq<char>,
)
    requires
        other != msg.socket_id,
    ensures
        m.insert(msg.socket_id, msg).contains_key(msg.socket_id),
        m.insert(msg.socket_id, msg)[msg.socket_id] == msg,
        with_activity(m.insert(msg.socket_id, msg)).contains_key(msg.socket_id) <==> msg.activity is Some,
        !m.insert(msg.socket_id, msg).remove(msg.socket_id).contains_key(msg.socket_id),
        m.insert(msg.socket_id, msg).remove(msg.socket_id).contains_key(other) == m.contains_key(other),
        m.contains_key(other) ==> m.insert(msg.socket_id, msg).remove(msg.socket_id)[other] == m[other],
{
}

/// Bridge server state for web clients: the last activity message of each
/// socket, for clients that connect later.
#[derive(Debug)]
pub struct Bridge {
    last_activities: Vec<ActivityMessage>,
    config: Config,
}

impl Bridge {
    #[verifier::type_invariant]
    spec fn well_formed(self) -> bool {
        distinct_keys(message_pairs(self.last_activities@))
    }

    /// The configuration the bridge was made with.
    pub closed spec fn config_of(self) -> Config {
        self.config
    }

    /// The configuration.
    pub fn config(&self) -> (r: &Config)
        ensures
            *r == self.config_of(),
    {
        &self.config
    }

    /// A bridge with no stored activity.
    pub fn new(config: Config) -> (r: Self)
        ensures
            r@ == Map::<Seq<char>, ActivityMessageModel>::empty(),
            r.config_of() == config,
    {
        let r = Bridge { last_activities: Vec::new(), config };
        assert(message_pairs(r.last_activities@) =~= Seq::empty());
        r
    }

    fn find(v: &Vec<ActivityMessage>, socket_id: &String) -> (r: Option<usize>)
        ensures
            match r {
                Some(j) => j < v@.len() && v@[j as int].socket_id@ == socket_id@,
                None => forall|m: int| 0 <= m < v@.len() ==> v@[m].socket_id@ != socket_id@,
            },
    {
        let mut j: usize = 0;
        while j < v.len()
            invariant
                j <= v@.len(),
                forall|m: int| 0 <= m < j ==> v@[m].socket_id@ != socket_id@,
            decreases v@.len() - j,
        {
            if v[j].socket_id == *socket_id {
                return Some(j);
            }
            j += 1;
        }
        None
    }

    /// Store an activity message for late joiners, and return the messages
    /// to broadcast: the message in JSON, then in MessagePack.
    pub fn send_activity(&mut self, msg: ActivityMessage) -> (broadcast: Vec<
        (ActivityMessage, Protocol),
    >)
        ensures
            final(self)@ == old(self)@.insert(msg.socket_id@, msg@),
            final(self).config_of() == old(self).config_of(),
            broadcast@.len() == 2,
            broadcast@[0].0@ == msg@,
            broadcast@[0].1 == Protocol::Json,
            broadcast@[1].0@ == msg@,
            broadcast@[1].1 == Protocol::MsgPack,
    {
        proof {
            use_type_invariant(&*self);
        }
        let ghost key = msg.socket_id@;
        let ghost model = msg@;
        let first = msg.clone();
        let second = msg.clone();
        let mut store: Vec<ActivityMessage> = Vec::new();
        std::mem::swap(&mut store, &mut self.last_activities);
        let ghost ps = message_pairs(store@);
        match Self::find(&store, &msg.socket_id) {
            Some(j) => {
                proof {
                    lemma_keyed_map_update(ps, j as int, model);
                }
                store.set(j, msg);
                assert(message_pairs(store@) =~= ps.update(j as int, (ps[j as int].0, model)));
            },
            None => {
                proof {
                    lemma_keyed_map_push(ps, (key, model));
                    assert forall|m: int| 0 <= m < ps.len() implies ps[m].0 != key by {
                        assert(ps[m].0 == store@[m].socket_id@);
                    }
                }
                store.push(msg);
                assert(message_pairs(store@) =~= ps.push((key, model)));
            },
        }
        self.last_activities = store;
        let mut out: Vec<(ActivityMessage, Protocol)> = Vec::new();
        out.push((first, Protocol::Json));
        out.push((second, Protocol::MsgPack));
        out
    }

    /// Clear the stored activity of a socket.
    pub fn clear_activity(&mut self, socket_id: &str)
        ensures
            final(self)@ == old(self)@.remove(socket_id@),
            final(self).config_of() == old(self).config_of(),
    {
        proof {
            use_type_invariant(&*self);
        }
        let key = String::from_str(socket_id);
        let mut store: Vec<ActivityMessage> = Vec::new();
        std::mem::swap(&mut store, &mut self.last_activities);
        let ghost ps = message_pairs(store@);
        match Self::find(&store, &key) {
            Some(j) => {
                proof {
                    lemma_keyed_map_remove(ps, j as int);
                }
                store.remove(j);
                assert(message_pairs(store@) =~= ps.remove(j as int));
            },
            None => {
                proof {
                    assert forall|m: int| 0 <= m < ps.len() implies ps[m].0 != key@ by {
                        assert(ps[m].0 == store@[m].socket_id@);
                    }
                    lemma_keyed_map_absent(ps, key@);
                }
                assert(keyed_map(ps) =~= keyed_map(ps).remove(key@));
            },
        }
        self.last_activities = store;
    }

    /// The stored messages that carry an activity, for a client that has
    /// just connected (one per socket).
    pub fn late_joiner_messages(&self) -> (r: Vec<ActivityMessage>)
        ensures
            distinct_keys(message_pairs(r@)),
            keyed_map(message_pairs(r@)) == with_activity(self@),
    {
        proof {
            use_type_invariant(self);
        }
        let ghost ps = message_pairs(self.last_activities@);
        let ghost all = keyed_map(ps);
        let mut out: Vec<ActivityMessage> = Vec::new();
        let mut i: usize = 0;
        assert(message_pairs(out@) =~= Seq::empty());
        while i < self.last_activities.len()
            invariant
                i <= self.last_activities@.len(),
                ps == message_pairs(self.last_activities@),
                distinct_keys(ps),
                all == keyed_map(ps),
                distinct_keys(message_pairs(out@)),
                forall|m: int|
                    0 <= m < out@.len() ==> exists|k: int|
                        0 <= k < i && #[trigger] message_pairs(out@)[m] == ps[k],
                keyed_map(message_pairs(out@)) == Map::new(
                    |k: Seq<char>|
                        keyed_map(ps.take(i as int)).contains_key(k) && keyed_map(
                            ps.take(i as int),
                        )[k].activity is Some,
                    |k: Seq<char>| keyed_map(ps.take(i as int))[k],
                ),
            decreases self.last_activities@.len() - i,
        {
            let msg = &self.last_activities[i];
            let ghost prev = message_pairs(out@);
            assert(ps.take(i + 1).drop_last() =~= ps.take(i as int));
            assert(ps.take(i + 1).last() == ps[i as int]);
            assert forall|k: int| 0 <= k < i implies ps[k].0 != ps[i as int].0 by {}
            proof {
                lemma_keyed_map_absent(ps.take(i as int), ps[i as int].0);
            }
            if msg.activity.is_some() {
                let c = msg.clone();
                out.push(c);
                assert(message_pairs(out@) =~= prev.push(ps[i as int]));
                proof {
                    lemma_keyed_map_push(prev, ps[i as int]);
                    assert forall|m: int| 0 <= m < prev.len() implies prev[m].0 != ps[i as int].0 by {
                        let k = choose|k: int| 0 <= k < i && prev[m] == ps[k];
                    }
                }
                assert(keyed_map(message_pairs(out@)) =~= Map::new(
                    |k: Seq<char>|
                        keyed_map(ps.take(i + 1)).contains_key(k) && keyed_map(
                            ps.take(i + 1),
                        )[k].activity is Some,
                    |k: Seq<char>| keyed_map(ps.take(i + 1))[k],
                ));
                assert forall|m: int|
                    0 <= m < out@.len() implies exists|k: int|
                        0 <= k < i + 1 && #[trigger] message_pairs(out@)[m] == ps[k] by {
                    if m < prev.len() {
                        let k = choose|k: int| 0 <= k < i && prev[m] == ps[k];
                        assert(message_pairs(out@)[m] == ps[k]);
                    } else {
                        assert(message_pairs(out@)[m] == ps[i as int]);
                    }
                }
            } else {
                assert(keyed_map(message_pairs(out@)) =~= Map::new(
                    |k: Seq<char>|
                        keyed_map(ps.take(i + 1)).contains_key(k) && keyed_map(
                            ps.take(i + 1),
                        )[k].activity is Some,
                    |k: Seq<char>| keyed_map(ps.take(i + 1))[k],
                ));
            }
            i += 1;
        }
        assert(ps.take(self.last_activities@.len() as int) =~= ps);
        assert(keyed_map(message_pairs(out@)) =~= with_activity(self@));
        out
    }

    /// The stored message of a socket.
    pub fn last_activity(&self, socket_id: &str) -> (r: Option<ActivityMessage>)
        ensures
            match r {
                Some(m) => self@.contains_key(socket_id@) && m@ == self@[socket_id@],
                None => !self@.contains_key(socket_id@),
            },
    {
        proof {
            use_type_invariant(self);
        }
        let key = String::from_str(socket_id);
        let ghost ps = message_pairs(self.last_activities@);
        match Self::find(&self.last_activities, &key) {
            Some(j) => {
                proof {
                    lemma_keyed_map_index(ps, j as int);
                }
                Some(self.last_activities[j].clone())
            },
            None => {
                proof {
                    assert forall|m: int| 0 <= m < ps.len() implies ps[m].0 != key@ by {
                        assert(ps[m].0 == self.last_activities@[m].socket_id@);
                    }
                    lemma_keyed_map_absent(ps, key@);
                }
                None
            },
        }
    }
}

impl View for Bridge {
    type V = Map<Seq<char>, ActivityMessageModel>;

    closed spec fn view(&self) -> Map<Seq<char>, ActivityMessageModel> {
        keyed_map(message_pairs(self.last_activities@))
    }
}

} // verus!
