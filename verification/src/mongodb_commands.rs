//! The commands that the server knows, and the documents it answers with.

use crate::bson::{
    docs_view, lemma_view_array, lemma_view_document, str_eq, values_view, Bson, BsonView, DocView,
    Document,
};
use crate::text::concat;
use vstd::prelude::*;

verus! {

/// The bits of the double 1.0.
pub const OK_ONE: u64 = 0x3FF0_0000_0000_0000;

/// The bits of the double 0.0.
pub const OK_ZERO: u64 = 0;

/// Largest document that clients are told they may send.
pub const MAX_BSON_OBJECT_SIZE: i32 = 16777216;

/// Largest message that clients are told they may send.
pub const MAX_MESSAGE_SIZE_BYTES: i32 = 48000000;

/// Largest number of writes in one batch that clients are told they may
/// send.
pub const MAX_WRITE_BATCH_SIZE: i32 = 100000;

/// The wire versions that clients are told the server speaks.
pub const MIN_WIRE_VERSION: i32 = 0;

pub const MAX_WIRE_VERSION: i32 = 17;

/// Code of the error for a command that is not known.
pub const CODE_COMMAND_NOT_FOUND: i32 = 59;

/// Code of the error for an argument that cannot be used.
pub const CODE_FAILED_TO_PARSE: i32 = 9;

/// Code of the error for a document that is malformed.
pub const CODE_INVALID_BSON: i32 = 22;

/// Code of the error for a cursor that is not open.
pub const CODE_CURSOR_NOT_FOUND: i32 = 43;

/// Code of the error for a command that is known and not served.
pub const CODE_NOT_IMPLEMENTED: i32 = 238;

/// Code of the error for a value that cannot be used.
pub const CODE_BAD_VALUE: i32 = 2;

/// Code of the error for a fault inside the server.
pub const CODE_INTERNAL_ERROR: i32 = 1;

/// Code of the error for a request beyond the rate limit.
pub const CODE_RATE_LIMITED: i32 = 16500;

/// Code of the error for a request that a circuit breaker refused.
pub const CODE_CIRCUIT_OPEN: i32 = 189;

/// What the server does with a command.
#[derive(Debug, Clone, Copy, PartialEq, Eq, Structural)]
pub enum CommandKind {
    Hello,
    Ping,
    BuildInfo,
    Find,
    GetMore,
    KillCursors,
    Insert,
    Update,
    Delete,
    Count,
    Aggregate,
    Create,
    Drop,
    ListCollections,
    ListDatabases,
    CreateIndexes,
    DropIndexes,
    ListIndexes,
    /// The command is known and is not served.
    NotImplemented,
}

/// Whether a name is one of the commands that are known and not served.
pub open spec fn is_unserved_command(n: Seq<char>) -> bool {
    n == "insertOne"@ || n == "insertMany"@ || n == "findOne"@ || n == "updateOne"@ || n
        == "updateMany"@ || n == "replaceOne"@ || n == "deleteOne"@ || n == "deleteMany"@ || n
        == "distinct"@ || n == "reIndex"@ || n == "collMod"@ || n == "renameCollection"@ || n
        == "createDatabase"@ || n == "dropDatabase"@ || n == "clone"@ || n == "cloneCollection"@
        || n == "cloneCollectionAsCapped"@ || n == "startTransaction"@ || n == "commitTransaction"@
        || n == "abortTransaction"@ || n == "authenticate"@ || n == "logout"@ || n == "getnonce"@
        || n == "createUser"@ || n == "updateUser"@ || n == "dropUser"@ || n
        == "grantRolesToUser"@ || n == "revokeRolesFromUser"@ || n == "usersInfo"@ || n
        == "createRole"@ || n == "updateRole"@ || n == "dropRole"@ || n
        == "grantPrivilegesToRole"@ || n == "revokePrivilegesFromRole"@ || n
        == "grantRolesToRole"@ || n == "revokeRolesFromRole"@ || n == "rolesInfo"@ || n
        == "getParameter"@ || n == "setParameter"@ || n == "hostInfo"@ || n == "serverStatus"@
        || n == "dbStats"@ || n == "collStats"@ || n == "top"@ || n == "currentOp"@ || n
        == "killOp"@ || n == "killAllSessions"@ || n == "killSessions"@ || n == "listSessions"@
        || n == "refreshSessions"@ || n == "replSetGetStatus"@ || n == "replSetGetConfig"@ || n
        == "replSetInitiate"@ || n == "replSetReconfig"@ || n == "replSetStepDown"@ || n
        == "replSetFreeze"@ || n == "replSetMaintenance"@ || n == "replSetSyncFrom"@ || n
        == "replSetResizeOplog"@ || n == "replSetHeartbeat"@ || n == "replSetUpdatePosition"@
        || n == "replSetGetRBID"@ || n == "replSetRequestVote"@ || n
        == "replSetDeclineElection"@ || n == "replSetElect"@ || n == "replSetTest"@ || n
        == "addShard"@ || n == "removeShard"@ || n == "enableSharding"@ || n
        == "shardCollection"@ || n == "shardConnPoolStats"@ || n == "getShardVersion"@ || n
        == "getShardMap"@ || n == "getShardDistribution"@ || n == "moveChunk"@ || n
        == "splitChunk"@ || n == "mergeChunks"@ || n == "balanceCollection"@ || n
        == "balancerStart"@ || n == "balancerStop"@ || n == "balancerStatus"@ || n == "filemd5"@
        || n == "mapReduce"@ || n == "mapreduce"@ || n == "createTimeSeries"@ || n
        == "createSearchIndexes"@ || n == "updateSearchIndex"@ || n == "dropSearchIndex"@ || n
        == "listSearchIndexes"@ || n == "atlasVersion"@
}

/// What the server does with the command of a given name; `None` for a
/// name that is no command.
pub open spec fn command_kind(n: Seq<char>) -> Option<CommandKind> {
    if n == "hello"@ || n == "isMaster"@ || n == "ismaster"@ {
        Some(CommandKind::Hello)
    } else if n == "ping"@ {
        Some(CommandKind::Ping)
    } else if n == "buildInfo"@ || n == "buildinfo"@ {
        Some(CommandKind::BuildInfo)
    } else if n == "find"@ {
        Some(CommandKind::Find)
    } else if n == "getMore"@ {
        Some(CommandKind::GetMore)
    } else if n == "killCursors"@ {
        Some(CommandKind::KillCursors)
    } else if n == "insert"@ {
        Some(CommandKind::Insert)
    } else if n == "update"@ {
        Some(CommandKind::Update)
    } else if n == "delete"@ {
        Some(CommandKind::Delete)
    } else if n == "count"@ || n == "countDocuments"@ {
        Some(CommandKind::Count)
    } else if n == "aggregate"@ {
        Some(CommandKind::Aggregate)
    } else if n == "create"@ {
        Some(CommandKind::Create)
    } else if n == "drop"@ {
        Some(CommandKind::Drop)
    } else if n == "listCollections"@ {
        Some(CommandKind::ListCollections)
    } else if n == "listDatabases"@ {
        Some(CommandKind::ListDatabases)
    } else if n == "createIndexes"@ {
        Some(CommandKind::CreateIndexes)
    } else if n == "dropIndexes"@ {
        Some(CommandKind::DropIndexes)
    } else if n == "listIndexes"@ {
        Some(CommandKind::ListIndexes)
    } else if is_unserved_command(n) {
        Some(CommandKind::NotImplemented)
    } else {
        None
    }
}

/// A response that reports success and nothing else.
pub open spec fn success_response() -> DocView {
    seq![("ok"@, BsonView::Double(OK_ONE))]
}

/// A response that reports an error.
pub open spec fn error_response(code: i32, code_name: Seq<char>, message: Seq<char>) -> DocView {
    seq![
        ("ok"@, BsonView::Double(OK_ZERO)),
        ("errmsg"@, BsonView::String(message)),
        ("code"@, BsonView::Int32(code)),
        ("codeName"@, BsonView::String(code_name)),
    ]
}

/// Documents as the items of an array.
pub open spec fn as_items(docs: Seq<DocView>) -> Seq<BsonView> {
    Seq::new(docs.len(), |i: int| BsonView::Document(docs[i]))
}

/// A response that carries a batch of a cursor: the documents under
/// `batch_key`, which is `firstBatch` or `nextBatch`, the id of the cursor,
/// zero where nothing is left, and the namespace.
pub open spec fn cursor_response(batch_key: Seq<char>, docs: Seq<DocView>, id: u64, ns: Seq<char>) -> DocView {
    seq![
        (
            "cursor"@,
            BsonView::Document(
                seq![
                    (batch_key, BsonView::Array(as_items(docs))),
                    ("id"@, BsonView::Int64(id as i64)),
                    ("ns"@, BsonView::String(ns)),
                ],
            ),
        ),
        ("ok"@, BsonView::Double(OK_ONE)),
    ]
}

/// The response to `hello` and to `isMaster`.
pub open spec fn hello_response(now_ms: i64, connection_id: i32) -> DocView {
    seq![
        ("ismaster"@, BsonView::Boolean(true)),
        ("isWritablePrimary"@, BsonView::Boolean(true)),
        ("helloOk"@, BsonView::Boolean(true)),
        ("maxBsonObjectSize"@, BsonView::Int32(MAX_BSON_OBJECT_SIZE)),
        ("maxMessageSizeBytes"@, BsonView::Int32(MAX_MESSAGE_SIZE_BYTES)),
        ("maxWriteBatchSize"@, BsonView::Int32(MAX_WRITE_BATCH_SIZE)),
        ("localTime"@, BsonView::DateTime(now_ms)),
        ("logicalSessionTimeoutMinutes"@, BsonView::Int32(30)),
        ("connectionId"@, BsonView::Int32(connection_id)),
        ("minWireVersion"@, BsonView::Int32(MIN_WIRE_VERSION)),
        ("maxWireVersion"@, BsonView::Int32(MAX_WIRE_VERSION)),
        ("readOnly"@, BsonView::Boolean(false)),
        ("ok"@, BsonView::Double(OK_ONE)),
    ]
}

/// The response to `buildInfo`.
pub open spec fn version_info() -> DocView {
    seq![
        ("version"@, BsonView::String("5.0.0"@)),
        ("gitVersion"@, BsonView::String("fauxdb-5.0.0-production"@)),
        (
            "versionArray"@,
            BsonView::Array(
                seq![
                    BsonView::Int32(5),
                    BsonView::Int32(0),
                    BsonView::Int32(0),
                    BsonView::Int32(0),
                ],
            ),
        ),
        ("modules"@, BsonView::Array(Seq::empty())),
        ("allocator"@, BsonView::String("tcmalloc"@)),
        ("javascriptEngine"@, BsonView::String("none"@)),
        ("sysInfo"@, BsonView::String("deprecated"@)),
        ("versionExtraInfo"@, BsonView::String("fauxdb-production"@)),
        ("openssl"@, BsonView::Document(Seq::empty())),
        ("bits"@, BsonView::Int32(64)),
        ("debug"@, BsonView::Boolean(false)),
        ("maxBsonObjectSize"@, BsonView::Int32(MAX_BSON_OBJECT_SIZE)),
        ("buildEnvironment"@, BsonView::Document(Seq::empty())),
        ("ok"@, BsonView::Double(OK_ONE)),
    ]
}

/// The description of a database in the response to `listDatabases`.
pub open spec fn database_info(name: Seq<char>, size: i64, empty: bool) -> DocView {
    seq![
        ("name"@, BsonView::String(name)),
        ("sizeOnDisk"@, BsonView::Int64(size)),
        ("empty"@, BsonView::Boolean(empty)),
    ]
}

/// The commands of a server.
#[derive(Debug)]
pub struct MongoDBCommandRegistry {
    /// The names of the commands, in the order in which they were
    /// registered.
    pub commands: Vec<String>,
    pub version_info: Document,
}

/// The names of the commands that write and read documents.
pub open spec fn document_command_names() -> Seq<Seq<char>> {
    seq![
        "insert"@,
        "insertOne"@,
        "insertMany"@,
        "find"@,
        "findOne"@,
        "update"@,
        "updateOne"@,
        "updateMany"@,
        "replaceOne"@,
        "delete"@,
        "deleteOne"@,
        "deleteMany"@,
        "count"@,
        "countDocuments"@,
    ]
}

/// The names of the commands that query and that keep indexes and collections.
pub open spec fn query_command_names() -> Seq<Seq<char>> {
    seq![
        "distinct"@,
        "aggregate"@,
        "createIndexes"@,
        "dropIndexes"@,
        "listIndexes"@,
        "reIndex"@,
        "create"@,
        "drop"@,
        "listCollections"@,
        "collMod"@,
        "renameCollection"@,
        "listDatabases"@,
        "createDatabase"@,
        "dropDatabase"@,
    ]
}

/// The names of the commands on collections, databases and transactions.
pub open spec fn collection_command_names() -> Seq<Seq<char>> {
    seq![
        "clone"@,
        "cloneCollection"@,
        "cloneCollectionAsCapped"@,
        "startTransaction"@,
        "commitTransaction"@,
        "abortTransaction"@,
        "authenticate"@,
        "logout"@,
        "getnonce"@,
        "createUser"@,
        "updateUser"@,
        "dropUser"@,
        "grantRolesToUser"@,
        "revokeRolesFromUser"@,
    ]
}

/// The names of the commands on users and roles.
pub open spec fn user_command_names() -> Seq<Seq<char>> {
    seq![
        "usersInfo"@,
        "createRole"@,
        "updateRole"@,
        "dropRole"@,
        "grantPrivilegesToRole"@,
        "revokePrivilegesFromRole"@,
        "grantRolesToRole"@,
        "revokeRolesFromRole"@,
        "rolesInfo"@,
        "buildInfo"@,
        "ping"@,
        "isMaster"@,
        "ismaster"@,
        "hello"@,
    ]
}

/// The names of the commands that report on the server.
pub open spec fn diagnostic_command_names() -> Seq<Seq<char>> {
    seq![
        "getParameter"@,
        "setParameter"@,
        "hostInfo"@,
        "serverStatus"@,
        "dbStats"@,
        "collStats"@,
        "top"@,
        "currentOp"@,
        "killOp"@,
        "killAllSessions"@,
        "killSessions"@,
        "listSessions"@,
        "refreshSessions"@,
        "replSetGetStatus"@,
    ]
}

/// The names of the commands of replica sets.
pub open spec fn replication_command_names() -> Seq<Seq<char>> {
    seq![
        "replSetGetConfig"@,
        "replSetInitiate"@,
        "replSetReconfig"@,
        "replSetStepDown"@,
        "replSetFreeze"@,
        "replSetMaintenance"@,
        "replSetSyncFrom"@,
        "replSetResizeOplog"@,
        "replSetHeartbeat"@,
        "replSetUpdatePosition"@,
        "replSetGetRBID"@,
        "replSetRequestVote"@,
        "replSetDeclineElection"@,
        "replSetElect"@,
    ]
}

/// The names of the commands of sharded clusters.
pub open spec fn sharding_command_names() -> Seq<Seq<char>> {
    seq![
        "replSetTest"@,
        "addShard"@,
        "removeShard"@,
        "enableSharding"@,
        "shardCollection"@,
        "shardConnPoolStats"@,
        "getShardVersion"@,
        "getShardMap"@,
        "getShardDistribution"@,
        "moveChunk"@,
        "splitChunk"@,
        "mergeChunks"@,
        "balanceCollection"@,
        "balancerStart"@,
    ]
}

/// The names of the commands that are left.
pub open spec fn maintenance_command_names() -> Seq<Seq<char>> {
    seq![
        "balancerStop"@,
        "balancerStatus"@,
        "filemd5"@,
        "mapReduce"@,
        "mapreduce"@,
        "getMore"@,
        "killCursors"@,
        "createTimeSeries"@,
        "createSearchIndexes"@,
        "updateSearchIndex"@,
        "dropSearchIndex"@,
        "listSearchIndexes"@,
        "atlasVersion"@,
        "buildinfo"@,
    ]
}

/// The names of the commands, in the order in which a registry lists
/// them.
pub open spec fn all_command_names() -> Seq<Seq<char>> {
    document_command_names() + query_command_names() + collection_command_names()
        + user_command_names() + diagnostic_command_names() + replication_command_names()
        + sharding_command_names() + maintenance_command_names()
}

/// The names of a list of strings.
pub open spec fn names_of(v: Seq<String>) -> Seq<Seq<char>> {
    Seq::new(v.len(), |i: int| v[i]@)
}

/// Every name that a registry lists is a command.
pub proof fn lemma_names_are_commands()
    ensures
        forall|i: int|
            0 <= i < all_command_names().len() ==> command_kind(
                #[trigger] all_command_names()[i],
            ).is_some(),
{
}

/// Copies of documents as the items of an array.
pub fn documents_as_array(docs: &Vec<Document>) -> (r: Bson)
    ensures
        r@ == BsonView::Array(as_items(docs_view(docs@))),
{
    let mut out: Vec<Bson> = Vec::new();
    let mut i: usize = 0;
    while i < docs.len()
        invariant
            i <= docs.len(),
            out@.len() == i,
            forall|j: int| 0 <= j < i ==> out@[j]@ == BsonView::Document(docs@[j]@),
        decreases docs.len() - i,
    {
        let c = docs[i].clone_document();
        proof {
            lemma_view_document(c);
        }
        out.push(Bson::Document(c));
        i = i + 1;
    }
    proof {
        lemma_view_array(out);
        assert(values_view(out@) =~= as_items(docs_view(docs@)));
    }
    Bson::Array(out)
}

impl MongoDBCommandRegistry {
    /// Every name in the registry is a command.
    pub open spec fn wf(&self) -> bool {
        forall|i: int|
            0 <= i < self.commands@.len() ==> command_kind((#[trigger] self.commands@[i])@).is_some()
    }

    /// A registry with every command registered.
    pub fn new() -> (r: Self)
        ensures
            r.wf(),
            r.version_info@ == version_info(),
            names_of(r.commands@) == all_command_names(),
    {
        let mut registry = MongoDBCommandRegistry {
            commands: Vec::new(),
            version_info: Self::build_version_info(),
        };
        registry.register_all_commands();
        registry
    }

    /// The response to `buildInfo`.
    pub fn build_version_info() -> (doc: Document)
        ensures
            doc@ == version_info(),
    {
        let mut doc = Document::new();
        doc.push("version".to_owned(), Bson::String("5.0.0".to_owned()));
        doc.push("gitVersion".to_owned(), Bson::String("fauxdb-5.0.0-production".to_owned()));
        let mut version: Vec<Bson> = Vec::new();
        version.push(Bson::Int32(5));
        version.push(Bson::Int32(0));
        version.push(Bson::Int32(0));
        version.push(Bson::Int32(0));
        let modules: Vec<Bson> = Vec::new();
        let openssl = Document::new();
        let build_environment = Document::new();
        proof {
            lemma_view_array(version);
            lemma_view_array(modules);
            lemma_view_document(openssl);
            lemma_view_document(build_environment);
            assert(values_view(version@) =~= seq![
                BsonView::Int32(5),
                BsonView::Int32(0),
                BsonView::Int32(0),
                BsonView::Int32(0),
            ]);
            assert(values_view(modules@) =~= Seq::<BsonView>::empty());
        }
        doc.push("versionArray".to_owned(), Bson::Array(version));
        doc.push("modules".to_owned(), Bson::Array(modules));
        doc.push("allocator".to_owned(), Bson::String("tcmalloc".to_owned()));
        doc.push("javascriptEngine".to_owned(), Bson::String("none".to_owned()));
        doc.push("sysInfo".to_owned(), Bson::String("deprecated".to_owned()));
        doc.push("versionExtraInfo".to_owned(), Bson::String("fauxdb-production".to_owned()));
        doc.push("openssl".to_owned(), Bson::Document(openssl));
        doc.push("bits".to_owned(), Bson::Int32(64));
        doc.push("debug".to_owned(), Bson::Boolean(false));
        doc.push("maxBsonObjectSize".to_owned(), Bson::Int32(MAX_BSON_OBJECT_SIZE));
        doc.push("buildEnvironment".to_owned(), Bson::Document(build_environment));
        doc.push("ok".to_owned(), Bson::Double(OK_ONE));
        assert(doc@ =~= version_info());
        doc
    }

    /// Registers a command under its name.
    pub fn register_command(&mut self, name: &str)
        requires
            old(self).wf(),
            command_kind(name@).is_some(),
        ensures
            final(self).wf(),
            final(self).version_info == old(self).version_info,
            final(self).commands@.len() == old(self).commands@.len() + 1,
            final(self).commands@.last()@ == name@,
            final(self).commands@.drop_last() == old(self).commands@,
    {
        self.commands.push(name.to_owned());
        assert(self.commands@.drop_last() =~= old(self).commands@);
        assert forall|i: int| 0 <= i < self.commands@.len() implies command_kind(
            (#[trigger] self.commands@[i])@,
        ).is_some() by {
            if i < old(self).commands@.len() {
                assert(self.commands@[i] == old(self).commands@[i]);
            }
        }
    }

    /// Registers every command that the server knows: those it serves and
    /// those it answers with "not implemented".
    pub fn register_all_commands(&mut self)
        requires
            old(self).wf(),
        ensures
            final(self).wf(),
            final(self).version_info == old(self).version_info,
            names_of(final(self).commands@) == names_of(old(self).commands@)
                + all_command_names(),
    {
        self.register_document_commands();
        self.register_query_commands();
        self.register_collection_commands();
        self.register_user_commands();
        self.register_diagnostic_commands();
        self.register_replication_commands();
        self.register_sharding_commands();
        self.register_maintenance_commands();
        assert(names_of(self.commands@) =~= names_of(old(self).commands@)
            + all_command_names());
    }

    /// Registers the commands that write and read documents.
    fn register_document_commands(&mut self)
        requires
            old(self).wf(),
        ensures
            final(self).wf(),
            final(self).version_info == old(self).version_info,
            names_of(final(self).commands@) == names_of(old(self).commands@)
                + document_command_names(),
    {
        proof {
            lemma_names_are_commands();
        }
        self.register_command("insert");
        self.register_command("insertOne");
        self.register_command("insertMany");
        self.register_command("find");
        self.register_command("findOne");
        self.register_command("update");
        self.register_command("updateOne");
        self.register_command("updateMany");
        self.register_command("replaceOne");
        self.register_command("delete");
        self.register_command("deleteOne");
        self.register_command("deleteMany");
        self.register_command("count");
        self.register_command("countDocuments");
        assert(names_of(self.commands@) =~= names_of(old(self).commands@)
            + document_command_names());
    }

    /// Registers the commands that query and that keep indexes and collections.
    fn register_query_commands(&mut self)
        requires
            old(self).wf(),
        ensures
            final(self).wf(),
            final(self).version_info == old(self).version_info,
            names_of(final(self).commands@) == names_of(old(self).commands@)
                + query_command_names(),
    {
        proof {
            lemma_names_are_commands();
        }
        self.register_command("distinct");
        self.register_command("aggregate");
        self.register_command("createIndexes");
        self.register_command("dropIndexes");
        self.register_command("listIndexes");
        self.register_command("reIndex");
        self.register_command("create");
        self.register_command("drop");
        self.register_command("listCollections");
        self.register_command("collMod");
        self.register_command("renameCollection");
        self.register_command("listDatabases");
        self.register_command("createDatabase");
        self.register_command("dropDatabase");
        assert(names_of(self.commands@) =~= names_of(old(self).commands@)
            + query_command_names());
    }

    /// Registers the commands on collections, databases and transactions.
    fn register_collection_commands(&mut self)
        requires
            old(self).wf(),
        ensures
            final(self).wf(),
            final(self).version_info == old(self).version_info,
            names_of(final(self).commands@) == names_of(old(self).commands@)
                + collection_command_names(),
    {
        proof {
            lemma_names_are_commands();
        }
        self.register_command("clone");
        self.register_command("cloneCollection");
        self.register_command("cloneCollectionAsCapped");
        self.register_command("startTransaction");
        self.register_command("commitTransaction");
        self.register_command("abortTransaction");
        self.register_command("authenticate");
        self.register_command("logout");
        self.register_command("getnonce");
        self.register_command("createUser");
        self.register_command("updateUser");
        self.register_command("dropUser");
        self.register_command("grantRolesToUser");
        self.register_command("revokeRolesFromUser");
        assert(names_of(self.commands@) =~= names_of(old(self).commands@)
            + collection_command_names());
    }

    /// Registers the commands on users and roles.
    fn register_user_commands(&mut self)
        requires
            old(self).wf(),
        ensures
            final(self).wf(),
            final(self).version_info == old(self).version_info,
            names_of(final(self).commands@) == names_of(old(self).commands@)
                + user_command_names(),
    {
        proof {
            lemma_names_are_commands();
        }
        self.register_command("usersInfo");
        self.register_command("createRole");
        self.register_command("updateRole");
        self.register_command("dropRole");
        self.register_command("grantPrivilegesToRole");
        self.register_command("revokePrivilegesFromRole");
        self.register_command("grantRolesToRole");
        self.register_command("revokeRolesFromRole");
        self.register_command("rolesInfo");
        self.register_command("buildInfo");
        self.register_command("ping");
        self.register_command("isMaster");
        self.register_command("ismaster");
        self.register_command("hello");
        assert(names_of(self.commands@) =~= names_of(old(self).commands@)
            + user_command_names());
    }

    /// Registers the commands that report on the server.
    fn register_diagnostic_commands(&mut self)
        requires
            old(self).wf(),
        ensures
            final(self).wf(),
            final(self).version_info == old(self).version_info,
            names_of(final(self).commands@) == names_of(old(self).commands@)
                + diagnostic_command_names(),
    {
        proof {
            lemma_names_are_commands();
        }
        self.register_command("getParameter");
        self.register_command("setParameter");
        self.register_command("hostInfo");
        self.register_command("serverStatus");
        self.register_command("dbStats");
        self.register_command("collStats");
        self.register_command("top");
        self.register_command("currentOp");
        self.register_command("killOp");
        self.register_command("killAllSessions");
        self.register_command("killSessions");
        self.register_command("listSessions");
        self.register_command("refreshSessions");
        self.register_command("replSetGetStatus");
        assert(names_of(self.commands@) =~= names_of(old(self).commands@)
            + diagnostic_command_names());
    }

    /// Registers the commands of replica sets.
    fn register_replication_commands(&mut self)
        requires
            old(self).wf(),
        ensures
            final(self).wf(),
            final(self).version_info == old(self).version_info,
            names_of(final(self).commands@) == names_of(old(self).commands@)
                + replication_command_names(),
    {
        proof {
            lemma_names_are_commands();
        }
        self.register_command("replSetGetConfig");
        self.register_command("replSetInitiate");
        self.register_command("replSetReconfig");
        self.register_command("replSetStepDown");
        self.register_command("replSetFreeze");
        self.register_command("replSetMaintenance");
        self.register_command("replSetSyncFrom");
        self.register_command("replSetResizeOplog");
        self.register_command("replSetHeartbeat");
        self.register_command("replSetUpdatePosition");
        self.register_command("replSetGetRBID");
        self.register_command("replSetRequestVote");
        self.register_command("replSetDeclineElection");
        self.register_command("replSetElect");
        assert(names_of(self.commands@) =~= names_of(old(self).commands@)
            + replication_command_names());
    }

    /// Registers the commands of sharded clusters.
    fn register_sharding_commands(&mut self)
        requires
            old(self).wf(),
        ensures
            final(self).wf(),
            final(self).version_info == old(self).version_info,
            names_of(final(self).commands@) == names_of(old(self).commands@)
                + sharding_command_names(),
    {
        proof {
            lemma_names_are_commands();
        }
        self.register_command("replSetTest");
        self.register_command("addShard");
        self.register_command("removeShard");
        self.register_command("enableSharding");
        self.register_command("shardCollection");
        self.register_command("shardConnPoolStats");
        self.register_command("getShardVersion");
        self.register_command("getShardMap");
        self.register_command("getShardDistribution");
        self.register_command("moveChunk");
        self.register_command("splitChunk");
        self.register_command("mergeChunks");
        self.register_command("balanceCollection");
        self.register_command("balancerStart");
        assert(names_of(self.commands@) =~= names_of(old(self).commands@)
            + sharding_command_names());
    }

    /// Registers the commands that are left.
    fn register_maintenance_commands(&mut self)
        requires
            old(self).wf(),
        ensures
            final(self).wf(),
            final(self).version_info == old(self).version_info,
            names_of(final(self).commands@) == names_of(old(self).commands@)
                + maintenance_command_names(),
    {
        proof {
            lemma_names_are_commands();
        }
        self.register_command("balancerStop");
        self.register_command("balancerStatus");
        self.register_command("filemd5");
        self.register_command("mapReduce");
        self.register_command("mapreduce");
        self.register_command("getMore");
        self.register_command("killCursors");
        self.register_command("createTimeSeries");
        self.register_command("createSearchIndexes");
        self.register_command("updateSearchIndex");
        self.register_command("dropSearchIndex");
        self.register_command("listSearchIndexes");
        self.register_command("atlasVersion");
        self.register_command("buildinfo");
        assert(names_of(self.commands@) =~= names_of(old(self).commands@)
            + maintenance_command_names());
    }


    /// What the server does with the command of a given name.
    pub fn kind_of(command: &str) -> (r: Option<CommandKind>)
        ensures
            r == command_kind(command@),
    {
        if str_eq(command, "hello") || str_eq(command, "isMaster") || str_eq(command, "ismaster") {
            Some(CommandKind::Hello)
        } else if str_eq(command, "ping") {
            Some(CommandKind::Ping)
        } else if str_eq(command, "buildInfo") || str_eq(command, "buildinfo") {
            Some(CommandKind::BuildInfo)
        } else if str_eq(command, "find") {
            Some(CommandKind::Find)
        } else if str_eq(command, "getMore") {
            Some(CommandKind::GetMore)
        } else if str_eq(command, "killCursors") {
            Some(CommandKind::KillCursors)
        } else if str_eq(command, "insert") {
            Some(CommandKind::Insert)
        } else if str_eq(command, "update") {
            Some(CommandKind::Update)
        } else if str_eq(command, "delete") {
            Some(CommandKind::Delete)
        } else if str_eq(command, "count") || str_eq(command, "countDocuments") {
            Some(CommandKind::Count)
        } else if str_eq(command, "aggregate") {
            Some(CommandKind::Aggregate)
        } else if str_eq(command, "create") {
            Some(CommandKind::Create)
        } else if str_eq(command, "drop") {
            Some(CommandKind::Drop)
        } else if str_eq(command, "listCollections") {
            Some(CommandKind::ListCollections)
        } else if str_eq(command, "listDatabases") {
            Some(CommandKind::ListDatabases)
        } else if str_eq(command, "createIndexes") {
            Some(CommandKind::CreateIndexes)
        } else if str_eq(command, "dropIndexes") {
            Some(CommandKind::DropIndexes)
        } else if str_eq(command, "listIndexes") {
            Some(CommandKind::ListIndexes)
        } else if Self::is_unserved(command) {
            Some(CommandKind::NotImplemented)
        } else {
            None
        }
    }

    /// Whether a name is one of the commands that are known and not
    /// served.
    pub fn is_unserved(n: &str) -> (r: bool)
        ensures
            r == is_unserved_command(n@),
    {
        let a = str_eq(n, "insertOne") || str_eq(n, "insertMany") || str_eq(n, "findOne")
            || str_eq(n, "updateOne") || str_eq(n, "updateMany") || str_eq(n, "replaceOne")
            || str_eq(n, "deleteOne") || str_eq(n, "deleteMany") || str_eq(n, "distinct")
            || str_eq(n, "reIndex") || str_eq(n, "collMod") || str_eq(n, "renameCollection")
            || str_eq(n, "createDatabase") || str_eq(n, "dropDatabase") || str_eq(n, "clone")
            || str_eq(n, "cloneCollection") || str_eq(n, "cloneCollectionAsCapped") || str_eq(
            n,
            "startTransaction",
        ) || str_eq(n, "commitTransaction") || str_eq(n, "abortTransaction") || str_eq(
            n,
            "authenticate",
        ) || str_eq(n, "logout") || str_eq(n, "getnonce") || str_eq(n, "createUser") || str_eq(
            n,
            "updateUser",
        ) || str_eq(n, "dropUser") || str_eq(n, "grantRolesToUser") || str_eq(
            n,
            "revokeRolesFromUser",
        ) || str_eq(n, "usersInfo") || str_eq(n, "createRole") || str_eq(n, "updateRole")
            || str_eq(n, "dropRole") || str_eq(n, "grantPrivilegesToRole") || str_eq(
            n,
            "revokePrivilegesFromRole",
        ) || str_eq(n, "grantRolesToRole") || str_eq(n, "revokeRolesFromRole") || str_eq(
            n,
            "rolesInfo",
        );
        let b = str_eq(n, "getParameter") || str_eq(n, "setParameter") || str_eq(n, "hostInfo")
            || str_eq(n, "serverStatus") || str_eq(n, "dbStats") || str_eq(n, "collStats")
            || str_eq(n, "top") || str_eq(n, "currentOp") || str_eq(n, "killOp") || str_eq(
            n,
            "killAllSessions",
        ) || str_eq(n, "killSessions") || str_eq(n, "listSessions") || str_eq(
            n,
            "refreshSessions",
        ) || str_eq(n, "replSetGetStatus") || str_eq(n, "replSetGetConfig") || str_eq(
            n,
            "replSetInitiate",
        ) || str_eq(n, "replSetReconfig") || str_eq(n, "replSetStepDown") || str_eq(
            n,
            "replSetFreeze",
        ) || str_eq(n, "replSetMaintenance") || str_eq(n, "replSetSyncFrom") || str_eq(
            n,
            "replSetResizeOplog",
        ) || str_eq(n, "replSetHeartbeat") || str_eq(n, "replSetUpdatePosition") || str_eq(
            n,
            "replSetGetRBID",
        ) || str_eq(n, "replSetRequestVote") || str_eq(n, "replSetDeclineElection") || str_eq(
            n,
            "replSetElect",
        ) || str_eq(n, "replSetTest");
        let c = str_eq(n, "addShard") || str_eq(n, "removeShard") || str_eq(n, "enableSharding")
            || str_eq(n, "shardCollection") || str_eq(n, "shardConnPoolStats") || str_eq(
            n,
            "getShardVersion",
        ) || str_eq(n, "getShardMap") || str_eq(n, "getShardDistribution") || str_eq(
            n,
            "moveChunk",
        ) || str_eq(n, "splitChunk") || str_eq(n, "mergeChunks") || str_eq(
            n,
            "balanceCollection",
        ) || str_eq(n, "balancerStart") || str_eq(n, "balancerStop") || str_eq(
            n,
            "balancerStatus",
        ) || str_eq(n, "filemd5") || str_eq(n, "mapReduce") || str_eq(n, "mapreduce") || str_eq(
            n,
            "createTimeSeries",
        ) || str_eq(n, "createSearchIndexes") || str_eq(n, "updateSearchIndex") || str_eq(
            n,
            "dropSearchIndex",
        ) || str_eq(n, "listSearchIndexes") || str_eq(n, "atlasVersion");
        a || b || c
    }

    /// Whether a name is a command.
    pub fn is_supported_command(&self, command: &str) -> (r: bool)
        ensures
            r == command_kind(command@).is_some(),
    {
        Self::kind_of(command).is_some()
    }

    /// The names of the commands, in the order in which they were
    /// registered.
    pub fn get_supported_commands(&self) -> (r: Vec<String>)
        ensures
            r@.len() == self.commands@.len(),
            forall|i: int| 0 <= i < r@.len() ==> (#[trigger] r@[i])@ == self.commands@[i]@,
    {
        let mut out: Vec<String> = Vec::new();
        let mut i: usize = 0;
        while i < self.commands.len()
            invariant
                i <= self.commands.len(),
                out@.len() == i,
                forall|j: int| 0 <= j < i ==> (#[trigger] out@[j])@ == self.commands@[j]@,
            decreases self.commands.len() - i,
        {
            out.push(self.commands[i].clone());
            i = i + 1;
        }
        out
    }

    /// A response that reports success and nothing else.
    pub fn build_success_response() -> (doc: Document)
        ensures
            doc@ == success_response(),
    {
        let mut doc = Document::new();
        doc.push("ok".to_owned(), Bson::Double(OK_ONE));
        assert(doc@ =~= success_response());
        doc
    }

    /// A response that reports an error.
    pub fn build_error_response(code: i32, code_name: &str, message: &str) -> (doc: Document)
        ensures
            doc@ == error_response(code, code_name@, message@),
    {
        let mut doc = Document::new();
        doc.push("ok".to_owned(), Bson::Double(OK_ZERO));
        doc.push("errmsg".to_owned(), Bson::String(message.to_owned()));
        doc.push("code".to_owned(), Bson::Int32(code));
        doc.push("codeName".to_owned(), Bson::String(code_name.to_owned()));
        assert(doc@ =~= error_response(code, code_name@, message@));
        doc
    }

    /// A response that carries the first batch of a cursor.
    pub fn build_cursor_response_with_namespace(documents: &Vec<Document>, id: u64, namespace: &str) -> (doc:
        Document)
        ensures
            doc@ == cursor_response("firstBatch"@, docs_view(documents@), id, namespace@),
    {
        Self::build_batch_response("firstBatch", documents, id, namespace)
    }

    /// A response that carries a batch of a cursor under `batch_key`.
    pub fn build_batch_response(batch_key: &str, documents: &Vec<Document>, id: u64, namespace: &str) -> (doc:
        Document)
        ensures
            doc@ == cursor_response(batch_key@, docs_view(documents@), id, namespace@),
    {
        let mut cursor = Document::new();
        cursor.push(batch_key.to_owned(), documents_as_array(documents));
        cursor.push("id".to_owned(), Bson::Int64(#[verifier::truncate] (id as i64)));
        cursor.push("ns".to_owned(), Bson::String(namespace.to_owned()));
        proof {
            lemma_view_document(cursor);
            assert(cursor@ =~= seq![
                (batch_key@, BsonView::Array(as_items(docs_view(documents@)))),
                ("id"@, BsonView::Int64(id as i64)),
                ("ns"@, BsonView::String(namespace@)),
            ]);
        }
        let mut doc = Document::new();
        doc.push("cursor".to_owned(), Bson::Document(cursor));
        doc.push("ok".to_owned(), Bson::Double(OK_ONE));
        assert(doc@ =~= cursor_response(batch_key@, docs_view(documents@), id, namespace@));
        doc
    }

    /// The description of a database.
    pub fn build_database_info(name: &str, size: i64, empty: bool) -> (doc: Document)
        ensures
            doc@ == database_info(name@, size, empty),
    {
        let mut doc = Document::new();
        doc.push("name".to_owned(), Bson::String(name.to_owned()));
        doc.push("sizeOnDisk".to_owned(), Bson::Int64(size));
        doc.push("empty".to_owned(), Bson::Boolean(empty));
        assert(doc@ =~= database_info(name@, size, empty));
        doc
    }

    /// The response to `ping`.
    pub fn handle_ping() -> (doc: Document)
        ensures
            doc@ == success_response(),
    {
        Self::build_success_response()
    }

    /// The response to `buildInfo`.
    pub fn handle_build_info() -> (doc: Document)
        ensures
            doc@ == version_info(),
    {
        Self::build_version_info()
    }

    /// The response to `hello`.
    pub fn handle_hello(now_ms: i64, connection_id: i32) -> (doc: Document)
        ensures
            doc@ == hello_response(now_ms, connection_id),
    {
        Self::handle_is_master(now_ms, connection_id)
    }

    /// The response to `isMaster`.
    pub fn handle_is_master(now_ms: i64, connection_id: i32) -> (doc: Document)
        ensures
            doc@ == hello_response(now_ms, connection_id),
    {
        let mut doc = Document::new();
        doc.push("ismaster".to_owned(), Bson::Boolean(true));
        doc.push("isWritablePrimary".to_owned(), Bson::Boolean(true));
        doc.push("helloOk".to_owned(), Bson::Boolean(true));
        doc.push("maxBsonObjectSize".to_owned(), Bson::Int32(MAX_BSON_OBJECT_SIZE));
        doc.push("maxMessageSizeBytes".to_owned(), Bson::Int32(MAX_MESSAGE_SIZE_BYTES));
        doc.push("maxWriteBatchSize".to_owned(), Bson::Int32(MAX_WRITE_BATCH_SIZE));
        doc.push("localTime".to_owned(), Bson::DateTime(now_ms));
        doc.push("logicalSessionTimeoutMinutes".to_owned(), Bson::Int32(30));
        doc.push("connectionId".to_owned(), Bson::Int32(connection_id));
        doc.push("minWireVersion".to_owned(), Bson::Int32(MIN_WIRE_VERSION));
        doc.push("maxWireVersion".to_owned(), Bson::Int32(MAX_WIRE_VERSION));
        doc.push("readOnly".to_owned(), Bson::Boolean(false));
        doc.push("ok".to_owned(), Bson::Double(OK_ONE));
        assert(doc@ =~= hello_response(now_ms, connection_id));
        doc
    }

    /// The response to a command that is no command.
    pub fn handle_unknown(command: &str) -> (doc: Document)
        ensures
            doc@ == error_response(
                CODE_COMMAND_NOT_FOUND,
                "CommandNotFound"@,
                "no such command: "@ + command@,
            ),
    {
        let msg = concat("no such command: ", command);
        Self::build_error_response(CODE_COMMAND_NOT_FOUND, "CommandNotFound", msg.as_str())
    }

    /// The response to a command that is known and not served.
    pub fn handle_not_implemented(command: &str) -> (doc: Document)
        ensures
            doc@ == error_response(
                CODE_NOT_IMPLEMENTED,
                "NotImplemented"@,
                "command not implemented: "@ + command@,
            ),
    {
        let msg = concat("command not implemented: ", command);
        Self::build_error_response(CODE_NOT_IMPLEMENTED, "NotImplemented", msg.as_str())
    }
}

impl Default for MongoDBCommandRegistry {
    fn default() -> (r: Self)
        ensures
            r.wf(),
            r.version_info@ == version_info(),
            names_of(r.commands@) == all_command_names(),
    {
        Self::new()
    }
}

} // verus!
