//! What the core needs to know of replica sets and clusters: the states
//! of a member, write concerns, and whether a write can be taken.

use core::time::Duration;
use vstd::prelude::*;

verus! {

/// The states of a member of a replica set.
#[derive(Debug, Clone, Copy, PartialEq, Eq, Structural)]
pub enum ReplicaSetState {
    Primary,
    Secondary,
    Arbiter,
    Down,
    Recovering,
    Unknown,
    Rollback,
}

/// How many members have to take a write before it counts.
#[derive(Debug, Clone, PartialEq)]
pub enum WriteConcernW {
    Number(i32),
    String(String),
    Majority,
    Tagged(String),
}

/// What a client asks of a write.
#[derive(Debug, Clone)]
pub struct WriteConcern {
    pub w: WriteConcernW,
    pub wtimeout: Option<Duration>,
    pub j: bool,
    pub fsync: bool,
}

/// The kinds of entries of an operation log.
#[derive(Debug, Clone, Copy, PartialEq, Eq, Structural)]
pub enum OpType {
    Insert,
    Update,
    Delete,
    Command,
    Noop,
    Invalid,
}

/// The settings of replication.
#[derive(Debug, Clone, Copy, PartialEq, Eq, Structural)]
pub struct ReplicationConfig {
    pub heartbeat_interval_ms: u64,
    pub election_timeout_ms: u64,
    pub max_oplog_size_mb: u64,
    pub oplog_retention_hours: u64,
    pub sync_source_selection_delay_ms: u64,
    pub initial_sync_max_docs: u64,
    pub initial_sync_max_batch_size: u64,
    pub max_repl_lag_secs: u64,
}

/// A cluster of shards.
#[derive(Debug, Clone)]
pub struct ClusterConfig {
    pub name: String,
    pub shards: Vec<ShardConfig>,
    pub mongos_instances: Vec<MongosConfig>,
    pub config_servers: Vec<ConfigServer>,
}

/// A shard.
#[derive(Debug, Clone)]
pub struct ShardConfig {
    pub id: String,
    pub replica_set: String,
    pub host: String,
    pub port: u16,
    pub max_size_mb: Option<u64>,
    /// Names and values, in the order in which they were given.
    pub tags: Vec<(String, String)>,
}

/// A router of a cluster.
#[derive(Debug, Clone)]
pub struct MongosConfig {
    pub host: String,
    pub port: u16,
    pub config_db: String,
}

/// A configuration server of a cluster.
#[derive(Debug, Clone)]
pub struct ConfigServer {
    pub host: String,
    pub port: u16,
}

impl Default for ReplicationConfig {
    fn default() -> (r: Self)
        ensures
            r == (ReplicationConfig {
                heartbeat_interval_ms: 2000,
                election_timeout_ms: 10000,
                max_oplog_size_mb: 1024,
                oplog_retention_hours: 24,
                sync_source_selection_delay_ms: 5000,
                initial_sync_max_docs: 1000000,
                initial_sync_max_batch_size: 1000,
                max_repl_lag_secs: 30,
            }),
    {
        ReplicationConfig {
            heartbeat_interval_ms: 2000,
            election_timeout_ms: 10000,
            max_oplog_size_mb: 1024,
            oplog_retention_hours: 24,
            sync_source_selection_delay_ms: 5000,
            initial_sync_max_docs: 1000000,
            initial_sync_max_batch_size: 1000,
            max_repl_lag_secs: 30,
        }
    }
}

impl ReplicaSetState {
    /// The name of the state.
    pub fn as_str(&self) -> (r: &'static str)
        ensures
            r@ == state_name(*self),
    {
        match self {
            ReplicaSetState::Primary => "Primary",
            ReplicaSetState::Secondary => "Secondary",
            ReplicaSetState::Arbiter => "Arbiter",
            ReplicaSetState::Down => "Down",
            ReplicaSetState::Recovering => "Recovering",
            ReplicaSetState::Unknown => "Unknown",
            ReplicaSetState::Rollback => "Rollback",
        }
    }
}

/// The name of a state.
pub open spec fn state_name(s: ReplicaSetState) -> Seq<char> {
    match s {
        ReplicaSetState::Primary => "Primary"@,
        ReplicaSetState::Secondary => "Secondary"@,
        ReplicaSetState::Arbiter => "Arbiter"@,
        ReplicaSetState::Down => "Down"@,
        ReplicaSetState::Recovering => "Recovering"@,
        ReplicaSetState::Unknown => "Unknown"@,
        ReplicaSetState::Rollback => "Rollback"@,
    }
}

/// Whether a member in the state `state` can take a write with the
/// concern `w`, where `available` of `total` members can be reached: only
/// a primary takes writes; a number of members has to be reachable where
/// the concern names one, and more than half of all where it asks for a
/// majority.
pub open spec fn accepts_writes(state: ReplicaSetState, w: WriteConcernW, available: usize, total: usize) -> bool {
    state == ReplicaSetState::Primary && (match w {
        WriteConcernW::Number(n) => n <= 0 || available >= n,
        WriteConcernW::Majority => available > total / 2,
        _ => true,
    })
}

/// Whether a member can take a write.
pub fn can_accept_writes(state: ReplicaSetState, concern: &WriteConcern, available: usize, total: usize) -> (r:
    bool)
    ensures
        r == accepts_writes(state, concern.w, available, total),
{
    match state {
        ReplicaSetState::Primary => {},
        _ => {
            return false;
        },
    }
    match &concern.w {
        WriteConcernW::Number(n) => {
            if *n <= 0 {
                true
            } else {
                (available as u64) >= (*n as u64)
            }
        },
        WriteConcernW::Majority => available > total / 2,
        _ => true,
    }
}

/// The concern of a write: the one that the client gave, or a majority
/// with a journal and five seconds to wait.
pub fn get_write_concern(concern: Option<WriteConcern>) -> (r: WriteConcern)
    ensures
        match concern {
            Some(c) => r == c,
            None => r.w == WriteConcernW::Majority && r.j && !r.fsync && r.wtimeout.is_some(),
        },
{
    match concern {
        Some(c) => c,
        None => WriteConcern {
            w: WriteConcernW::Majority,
            wtimeout: Some(Duration::from_secs(5)),
            j: true,
            fsync: false,
        },
    }
}

/// A member of a replica set, as far as the core keeps it. The time is in
/// milliseconds since the Unix epoch.
#[derive(Debug, Clone)]
pub struct ReplicaSetMember {
    pub id: u32,
    pub host: String,
    pub port: u16,
    pub state: ReplicaSetState,
    pub votes: u32,
    pub hidden: bool,
    pub arbiter_only: bool,
    /// When the member was last heard of.
    pub last_heartbeat: Option<i64>,
}

/// What a server knows of its replica set.
#[derive(Debug)]
pub struct ReplicationManager {
    pub replication_config: ReplicationConfig,
    /// The name of the set, once it was initiated.
    pub set_name: Option<String>,
    /// How often the members were changed.
    pub version: u32,
    /// The members, in the order in which they were added.
    pub members: Vec<ReplicaSetMember>,
    /// The state of this server.
    pub my_state: ReplicaSetState,
}

/// Number of the first `n` members that were heard of.
pub open spec fn heard_of(m: Seq<ReplicaSetMember>, n: int) -> int
    decreases n,
{
    if n <= 0 || n > m.len() {
        0
    } else {
        heard_of(m, n - 1) + (if m[n - 1].last_heartbeat.is_some() {
            1int
        } else {
            0int
        })
    }
}

/// The first `n` members without those with the given id.
pub open spec fn without_member(m: Seq<ReplicaSetMember>, id: u32, n: int) -> Seq<
    ReplicaSetMember,
>
    decreases n,
{
    if n <= 0 || n > m.len() {
        Seq::empty()
    } else if m[n - 1].id == id {
        without_member(m, id, n - 1)
    } else {
        without_member(m, id, n - 1).push(m[n - 1])
    }
}

/// `x + 1`, or `x` at the top of the range.
pub open spec fn next_version(x: u32) -> u32 {
    if x < u32::MAX {
        (x + 1) as u32
    } else {
        x
    }
}

impl ReplicationManager {
    /// A manager of a server that is in no set yet.
    pub fn new(config: ReplicationConfig) -> (r: Self)
        ensures
            r.replication_config == config,
            r.set_name.is_none(),
            r.version == 0,
            r.members@.len() == 0,
            r.my_state == ReplicaSetState::Unknown,
    {
        ReplicationManager {
            replication_config: config,
            set_name: None,
            version: 0,
            members: Vec::new(),
            my_state: ReplicaSetState::Unknown,
        }
    }

    /// Initiates a set with the given members: this server becomes its
    /// primary.
    pub fn initiate_replica_set(&mut self, name: String, members: Vec<ReplicaSetMember>)
        ensures
            final(self).replication_config == old(self).replication_config,
            final(self).set_name == Some(name),
            final(self).version == 1,
            final(self).members == members,
            final(self).my_state == ReplicaSetState::Primary,
    {
        self.set_name = Some(name);
        self.version = 1;
        self.members = members;
        self.my_state = ReplicaSetState::Primary;
    }

    /// Adds a member at the end.
    pub fn add_member(&mut self, member: ReplicaSetMember)
        ensures
            final(self).replication_config == old(self).replication_config,
            final(self).set_name == old(self).set_name,
            final(self).my_state == old(self).my_state,
            final(self).version == next_version(old(self).version),
            final(self).members@ == old(self).members@.push(member),
    {
        self.members.push(member);
        if self.version < u32::MAX {
            self.version = self.version + 1;
        }
    }

    /// Removes the members with the given id.
    pub fn remove_member(&mut self, member_id: u32)
        ensures
            final(self).replication_config == old(self).replication_config,
            final(self).set_name == old(self).set_name,
            final(self).my_state == old(self).my_state,
            final(self).version == next_version(old(self).version),
            final(self).members@ == without_member(
                old(self).members@,
                member_id,
                old(self).members@.len() as int,
            ),
    {
        let mut rest: Vec<ReplicaSetMember> = Vec::new();
        core::mem::swap(&mut rest, &mut self.members);
        let ghost all = rest@;
        let mut kept: Vec<ReplicaSetMember> = Vec::new();
        let mut i: usize = 0;
        let total = rest.len();
        while rest.len() > 0
            invariant
                i + rest@.len() == all.len(),
                all.len() == total,
                rest@ == all.skip(i as int),
                kept@ == without_member(all, member_id, i as int),
            decreases rest@.len(),
        {
            let m = rest.remove(0);
            assert(m == all[i as int]);
            assert(rest@ =~= all.skip(i as int + 1));
            if m.id != member_id {
                kept.push(m);
            }
            i = i + 1;
        }
        self.members = kept;
        if self.version < u32::MAX {
            self.version = self.version + 1;
        }
    }

    /// Whether this server is the primary.
    pub fn is_primary(&self) -> (r: bool)
        ensures
            r == (self.my_state == ReplicaSetState::Primary),
    {
        match self.my_state {
            ReplicaSetState::Primary => true,
            _ => false,
        }
    }

    /// Whether this server is a secondary.
    pub fn is_secondary(&self) -> (r: bool)
        ensures
            r == (self.my_state == ReplicaSetState::Secondary),
    {
        match self.my_state {
            ReplicaSetState::Secondary => true,
            _ => false,
        }
    }

    /// This server gives up being the primary: it is a secondary now.
    pub fn step_down(&mut self)
        ensures
            final(self).my_state == ReplicaSetState::Secondary,
            final(self).members == old(self).members,
            final(self).version == old(self).version,
            final(self).set_name == old(self).set_name,
            final(self).replication_config == old(self).replication_config,
    {
        self.my_state = ReplicaSetState::Secondary;
    }

    /// This server is the primary now.
    pub fn become_primary(&mut self)
        ensures
            final(self).my_state == ReplicaSetState::Primary,
            final(self).members == old(self).members,
            final(self).version == old(self).version,
            final(self).set_name == old(self).set_name,
            final(self).replication_config == old(self).replication_config,
    {
        self.my_state = ReplicaSetState::Primary;
    }

    /// Number of members that were heard of.
    pub fn get_available_members_count(&self) -> (r: usize)
        ensures
            r == heard_of(self.members@, self.members@.len() as int),
    {
        let mut n: usize = 0;
        let mut i: usize = 0;
        while i < self.members.len()
            invariant
                i <= self.members.len(),
                n == heard_of(self.members@, i as int),
                n <= i,
            decreases self.members.len() - i,
        {
            if self.members[i].last_heartbeat.is_some() {
                n = n + 1;
            }
            i = i + 1;
        }
        n
    }

    /// Number of members.
    pub fn get_total_members_count(&self) -> (r: usize)
        ensures
            r == self.members@.len(),
    {
        self.members.len()
    }

    /// The concern of a write: the one that the client gave, or a
    /// majority with a journal and five seconds to wait.
    pub fn get_write_concern(&self, concern: Option<WriteConcern>) -> (r: WriteConcern)
        ensures
            match concern {
                Some(c) => r == c,
                None => r.w == WriteConcernW::Majority && r.j && !r.fsync && r.wtimeout.is_some(),
            },
    {
        get_write_concern(concern)
    }

    /// Whether this server can take a write with the given concern.
    pub fn can_accept_writes(&self, concern: &WriteConcern) -> (r: bool)
        ensures
            r == accepts_writes(
                self.my_state,
                concern.w,
                heard_of(self.members@, self.members@.len() as int) as usize,
                self.members@.len() as usize,
            ),
    {
        let available = self.get_available_members_count();
        can_accept_writes(self.my_state, concern, available, self.members.len())
    }
}

} // verus!
