//! Users, roles and sessions: who may do what.
//!
//! Times are in milliseconds since the Unix epoch and come from the
//! caller.

use crate::bson::{str_eq, Document};
use crate::chars::{
    any_lowercase, any_numeric, any_other, any_uppercase, has_lowercase, has_numeric, has_other,
    has_uppercase,
};
use crate::codec::push_all;
use crate::text::{bytes_contain, contains_bytes};
use crate::system::{
    base64, base64_encode, hex_text, md5, md5_digest, random_bytes, random_uuid, sha256,
    sha256_digest, to_hex,
};
use vstd::prelude::*;
use vstd::utf8::encode_utf8;

verus! {

/// Milliseconds for which a session lasts: 24 hours.
pub const SESSION_TIMEOUT_MS: i64 = 86400000;

/// How a client proves who it is.
#[derive(Debug, Clone, Copy, PartialEq, Eq, Structural)]
pub enum AuthMechanism {
    ScramSha1,
    ScramSha256,
    MongodbCr,
    MongodbX509,
    GSSAPI,
    PLAIN,
}

/// A user and what is stored of their password.
#[derive(Debug)]
pub struct User {
    pub id: String,
    pub username: String,
    pub password_hash: String,
    pub salt: String,
    pub mechanisms: Vec<AuthMechanism>,
    pub roles: Vec<Role>,
    pub custom_data: Option<Document>,
    pub created_at: i64,
    pub updated_at: i64,
    pub is_active: bool,
    pub password_changed_at: Option<i64>,
}

/// A role in a database and what it permits.
#[derive(Debug, PartialEq)]
pub struct Role {
    pub name: String,
    pub database: String,
    pub privileges: Vec<Privilege>,
}

/// Actions that are permitted on a resource.
#[derive(Debug, PartialEq)]
pub struct Privilege {
    pub resource: Resource,
    pub actions: Vec<Action>,
}

/// What an action is done to.
#[derive(Debug, PartialEq)]
pub enum Resource {
    Database { name: String },
    Collection { database: String, collection: String },
    Cluster,
    AnyResource,
}

/// What can be done.
#[derive(Debug, Clone, Copy, PartialEq, Eq, Structural)]
pub enum Action {
    Find,
    Insert,
    Update,
    Remove,
    CreateIndex,
    DropIndex,
    CreateCollection,
    DropCollection,
    CreateDatabase,
    DropDatabase,
    ListCollections,
    ListDatabases,
    AnyAction,
}

/// An open session.
#[derive(Debug)]
pub struct AuthSession {
    pub session_id: String,
    pub user_id: String,
    pub username: String,
    pub roles: Vec<Role>,
    pub created_at: i64,
    pub expires_at: i64,
    pub client_ip: String,
    pub mechanism: AuthMechanism,
}

/// What a client is sent to prove itself against.
#[derive(Debug)]
pub struct AuthChallenge {
    pub nonce: String,
    pub salt: String,
    pub iterations: u32,
    pub mechanism: AuthMechanism,
}

/// What passwords have to look like.
#[derive(Debug, Clone, Copy, PartialEq, Eq, Structural)]
pub struct PasswordPolicy {
    pub min_length: usize,
    pub require_uppercase: bool,
    pub require_lowercase: bool,
    pub require_numbers: bool,
    pub require_special_chars: bool,
    pub max_age_days: Option<u32>,
}

/// How many sessions there are.
#[derive(Debug, Clone, Copy, PartialEq, Eq, Structural)]
pub struct SessionStats {
    pub active_sessions: usize,
    pub expired_sessions: usize,
    pub total_sessions: usize,
}

/// Why a request of the security manager failed.
#[derive(Debug, Clone, Copy, PartialEq, Eq, Structural)]
pub enum SecurityError {
    UserNotFound,
    UserExists,
    AccountDisabled,
    MechanismNotSupported,
    MechanismNotImplemented,
    InvalidPassword,
    PasswordTooShort,
    PasswordNeedsUppercase,
    PasswordNeedsLowercase,
    PasswordNeedsNumber,
    PasswordNeedsSpecial,
    SessionNotFound,
    SessionExpired,
}

/// Users and their sessions.
#[derive(Debug)]
pub struct SecurityManager {
    pub users: Vec<User>,
    pub sessions: Vec<AuthSession>,
    pub builtin_roles: Vec<Role>,
    pub password_policy: PasswordPolicy,
    pub session_timeout_ms: i64,
}

/// Proves passwords by challenge and response.
#[derive(Debug)]
pub struct ScramAuthenticator {
    pub nonce: String,
    pub salt: String,
    pub iterations: u32,
}

/// The policy that holds unless another one is set.
pub open spec fn default_policy() -> PasswordPolicy {
    PasswordPolicy {
        min_length: 8,
        require_uppercase: true,
        require_lowercase: true,
        require_numbers: true,
        require_special_chars: true,
        max_age_days: Some(90u32),
    }
}

impl Default for PasswordPolicy {
    fn default() -> (r: Self)
        ensures
            r == default_policy(),
    {
        PasswordPolicy {
            min_length: 8,
            require_uppercase: true,
            require_lowercase: true,
            require_numbers: true,
            require_special_chars: true,
            max_age_days: Some(90),
        }
    }
}

/// Whether a privilege on `granted` covers a request for `requested`.
pub open spec fn resource_covers(granted: Resource, requested: Resource) -> bool {
    match granted {
        Resource::AnyResource => true,
        Resource::Cluster => requested is Cluster,
        Resource::Database { name } => requested matches Resource::Database { name: n } && n@
            == name@,
        Resource::Collection { database, collection } => requested matches Resource::Collection {
            database: d,
            collection: c,
        } && d@ == database@ && c@ == collection@,
    }
}

/// Whether a privilege permits an action on a resource.
pub open spec fn privilege_permits(p: Privilege, resource: Resource, action: Action) -> bool {
    resource_covers(p.resource, resource) && p.actions@.contains(action)
}

/// Whether one of the privileges of a role permits an action on a
/// resource.
pub open spec fn role_permits(r: Role, resource: Resource, action: Action) -> bool {
    exists|j: int|
        0 <= j < r.privileges@.len() && privilege_permits(
            #[trigger] r.privileges@[j],
            resource,
            action,
        )
}

/// Whether one of the roles permits an action on a resource.
pub open spec fn permits(roles: Seq<Role>, resource: Resource, action: Action) -> bool {
    exists|i: int| 0 <= i < roles.len() && role_permits(#[trigger] roles[i], resource, action)
}

/// The first rule of a policy that a password breaks, if it breaks one.
pub open spec fn password_fault(p: PasswordPolicy, password: Seq<char>) -> Option<SecurityError> {
    if encode_utf8(password).len() < p.min_length {
        Some(SecurityError::PasswordTooShort)
    } else if p.require_uppercase && !any_uppercase(password) {
        Some(SecurityError::PasswordNeedsUppercase)
    } else if p.require_lowercase && !any_lowercase(password) {
        Some(SecurityError::PasswordNeedsLowercase)
    } else if p.require_numbers && !any_numeric(password) {
        Some(SecurityError::PasswordNeedsNumber)
    } else if p.require_special_chars && !any_other(password) {
        Some(SecurityError::PasswordNeedsSpecial)
    } else {
        None
    }
}

/// What is stored of a password: the SHA-256 digest of the password
/// followed by the salt, in base64.
pub open spec fn password_hash(password: Seq<char>, salt: Seq<char>) -> Seq<char> {
    base64(sha256(encode_utf8(password) + encode_utf8(salt)))
}

/// What the oldest mechanism stores of a password: the MD5 digest of user
/// name, `:mongo:` and password, in hexadecimal.
pub open spec fn legacy_hash(username: Seq<char>, password: Seq<char>) -> Seq<char> {
    hex_text(md5(encode_utf8(username) + encode_utf8(":mongo:"@) + encode_utf8(password)))
}

/// Index of the first user at or after `i` with the given name; the number
/// of users where there is none.
pub open spec fn user_index_from(users: Seq<User>, name: Seq<char>, i: int) -> int
    decreases users.len() - i,
{
    if i < 0 || i >= users.len() {
        users.len() as int
    } else if users[i].username@ == name {
        i
    } else {
        user_index_from(users, name, i + 1)
    }
}

/// Index of the user with the given name; the number of users where there
/// is none.
pub open spec fn user_index(users: Seq<User>, name: Seq<char>) -> int {
    user_index_from(users, name, 0)
}

proof fn lemma_user_index_skip(users: Seq<User>, name: Seq<char>, i: int)
    requires
        0 <= i <= users.len(),
        forall|j: int| 0 <= j < i ==> (#[trigger] users[j]).username@ != name,
    ensures
        user_index_from(users, name, i) == user_index(users, name),
    decreases i,
{
    if i > 0 {
        lemma_user_index_skip(users, name, i - 1);
        assert(users[i - 1].username@ != name);
    }
}

/// Number of sessions among the first `n` that have ended at `now`.
pub open spec fn expired_count(s: Seq<AuthSession>, now: i64, n: int) -> int
    decreases n,
{
    if n <= 0 || n > s.len() {
        0
    } else {
        expired_count(s, now, n - 1) + (if s[n - 1].expires_at <= now {
            1int
        } else {
            0int
        })
    }
}

/// Those of the first `n` sessions that have not ended at `now`, in their
/// order.
pub open spec fn open_sessions(s: Seq<AuthSession>, now: i64, n: int) -> Seq<AuthSession>
    decreases n,
{
    if n <= 0 || n > s.len() {
        Seq::empty()
    } else if s[n - 1].expires_at <= now {
        open_sessions(s, now, n - 1)
    } else {
        open_sessions(s, now, n - 1).push(s[n - 1])
    }
}

/// The sessions that are open and those that have ended are all the
/// sessions, and every open session ends after `now`.
pub proof fn lemma_open_sessions(s: Seq<AuthSession>, now: i64, n: int)
    requires
        0 <= n <= s.len(),
    ensures
        open_sessions(s, now, n).len() + expired_count(s, now, n) == n,
        forall|i: int|
            0 <= i < open_sessions(s, now, n).len() ==> (#[trigger] open_sessions(
                s,
                now,
                n,
            )[i]).expires_at > now,
    decreases n,
{
    if n > 0 {
        lemma_open_sessions(s, now, n - 1);
    }
}

/// What is stored of a password.
pub fn hash_password_with_salt(password: &str, salt: &str) -> (r: String)
    ensures
        r@ == password_hash(password@, salt@),
{
    let mut data: Vec<u8> = Vec::new();
    push_all(&mut data, password.as_bytes());
    push_all(&mut data, salt.as_bytes());
    let digest = sha256_digest(data.as_slice());
    base64_encode(digest.as_slice())
}

/// What the oldest mechanism stores of a password.
pub fn hash_mongodb_cr(username: &str, password: &str) -> (r: String)
    ensures
        r@ == legacy_hash(username@, password@),
{
    let mut data: Vec<u8> = Vec::new();
    push_all(&mut data, username.as_bytes());
    push_all(&mut data, ":mongo:".as_bytes());
    push_all(&mut data, password.as_bytes());
    let digest = md5_digest(data.as_slice());
    to_hex(digest.as_slice())
}

/// Whether a text is sixteen bytes in base64.
pub open spec fn sixteen_bytes_encoded(s: Seq<char>) -> bool {
    exists|b: Seq<u8>| b.len() == 16 && s == #[trigger] base64(b)
}

/// A fresh salt: sixteen random bytes in base64.
pub fn generate_salt() -> (r: String)
    ensures
        sixteen_bytes_encoded(r@),
{
    let bytes = random_bytes();
    let r = base64_encode(bytes.as_slice());
    assert(bytes@.len() == 16 && r@ == base64(bytes@));
    r
}

/// Whether an action is among a list of actions.
pub fn has_action(actions: &Vec<Action>, action: &Action) -> (r: bool)
    ensures
        r == actions@.contains(*action),
{
    let mut i: usize = 0;
    while i < actions.len()
        invariant
            i <= actions.len(),
            forall|j: int| 0 <= j < i ==> actions@[j] != *action,
        decreases actions.len() - i,
    {
        if actions[i] == *action {
            return true;
        }
        i = i + 1;
    }
    false
}

/// Whether a mechanism is among a list of mechanisms.
pub fn has_mechanism(list: &Vec<AuthMechanism>, m: &AuthMechanism) -> (r: bool)
    ensures
        r == list@.contains(*m),
{
    let mut i: usize = 0;
    while i < list.len()
        invariant
            i <= list.len(),
            forall|j: int| 0 <= j < i ==> list@[j] != *m,
        decreases list.len() - i,
    {
        if list[i] == *m {
            return true;
        }
        i = i + 1;
    }
    false
}

impl Resource {
    /// A copy of the resource.
    pub fn clone_resource(&self) -> (r: Self)
        ensures
            r == *self,
    {
        match self {
            Resource::Database { name } => Resource::Database { name: name.clone() },
            Resource::Collection { database, collection } => Resource::Collection {
                database: database.clone(),
                collection: collection.clone(),
            },
            Resource::Cluster => Resource::Cluster,
            Resource::AnyResource => Resource::AnyResource,
        }
    }
}

impl Privilege {
    /// A privilege for the given actions on a resource.
    pub fn new(resource: Resource, actions: Vec<Action>) -> (r: Self)
        ensures
            r.resource == resource,
            r.actions == actions,
    {
        Privilege { resource, actions }
    }

    /// A copy of the privilege: the same resource and the same actions.
    pub fn clone_privilege(&self) -> (r: Self)
        ensures
            r.resource == self.resource,
            r.actions@ == self.actions@,
    {
        let mut actions: Vec<Action> = Vec::new();
        let mut i: usize = 0;
        while i < self.actions.len()
            invariant
                i <= self.actions.len(),
                actions@ == self.actions@.take(i as int),
            decreases self.actions.len() - i,
        {
            actions.push(self.actions[i]);
            assert(actions@ =~= self.actions@.take(i + 1));
            i = i + 1;
        }
        assert(self.actions@.take(self.actions@.len() as int) =~= self.actions@);
        Privilege { resource: self.resource.clone_resource(), actions }
    }
}

impl Role {
    /// A role with the given privileges.
    pub fn new(name: String, database: String, privileges: Vec<Privilege>) -> (r: Self)
        ensures
            r.name == name,
            r.database == database,
            r.privileges == privileges,
    {
        Role { name, database, privileges }
    }

    /// The role with one more privilege, behind those it has.
    pub fn with_privilege(self, resource: Resource, actions: Vec<Action>) -> (r: Self)
        ensures
            r.name == self.name,
            r.database == self.database,
            r.privileges@ == self.privileges@.push(Privilege { resource, actions }),
    {
        let mut role = self;
        role.privileges.push(Privilege { resource, actions });
        role
    }

    /// A copy of the role: it says the same, and so permits what the role
    /// permits.
    pub fn clone_role(&self) -> (r: Self)
        ensures
            r.name == self.name,
            r.database == self.database,
            r.privileges@.len() == self.privileges@.len(),
            same_role(r, *self),
            forall|res: Resource, a: Action|
                #[trigger] role_permits(r, res, a) == role_permits(*self, res, a),
    {
        let mut privileges: Vec<Privilege> = Vec::new();
        let mut i: usize = 0;
        while i < self.privileges.len()
            invariant
                i <= self.privileges.len(),
                privileges@.len() == i,
                forall|j: int|
                    0 <= j < i ==> (#[trigger] privileges@[j]).resource
                        == self.privileges@[j].resource && privileges@[j].actions@
                        == self.privileges@[j].actions@,
            decreases self.privileges.len() - i,
        {
            privileges.push(self.privileges[i].clone_privilege());
            i = i + 1;
        }
        let r = Role { name: self.name.clone(), database: self.database.clone(), privileges };
        proof {
            assert forall|res: Resource, a: Action| #[trigger]
                role_permits(r, res, a) == role_permits(*self, res, a) by {
                if role_permits(r, res, a) {
                    let j = choose|j: int|
                        0 <= j < r.privileges@.len() && privilege_permits(
                            #[trigger] r.privileges@[j],
                            res,
                            a,
                        );
                    assert(privilege_permits(self.privileges@[j], res, a));
                }
                if role_permits(*self, res, a) {
                    let j = choose|j: int|
                        0 <= j < self.privileges@.len() && privilege_permits(
                            #[trigger] self.privileges@[j],
                            res,
                            a,
                        );
                    assert(privilege_permits(r.privileges@[j], res, a));
                }
            }
        }
        r
    }
}

/// Whether a privilege on `granted` covers a request for `requested`.
pub fn resource_matches(granted: &Resource, requested: &Resource) -> (r: bool)
    ensures
        r == resource_covers(*granted, *requested),
{
    match granted {
        Resource::AnyResource => true,
        Resource::Cluster => match requested {
            Resource::Cluster => true,
            _ => false,
        },
        Resource::Database { name } => match requested {
            Resource::Database { name: n } => str_eq(name.as_str(), n.as_str()),
            _ => false,
        },
        Resource::Collection { database, collection } => match requested {
            Resource::Collection { database: d, collection: c } => str_eq(
                database.as_str(),
                d.as_str(),
            ) && str_eq(collection.as_str(), c.as_str()),
            _ => false,
        },
    }
}

/// Whether one of the roles permits an action on a resource.
#[verifier::loop_isolation(false)]
pub fn roles_permit(roles: &Vec<Role>, resource: &Resource, action: &Action) -> (r: bool)
    ensures
        r == permits(roles@, *resource, *action),
{
    let mut i: usize = 0;
    while i < roles.len()
        invariant
            i <= roles.len(),
            forall|k: int| 0 <= k < i ==> !role_permits(#[trigger] roles@[k], *resource, *action),
        decreases roles.len() - i,
    {
        let role = &roles[i];
        let mut j: usize = 0;
        while j < role.privileges.len()
            invariant
                j <= role.privileges.len(),
                forall|k: int|
                    0 <= k < j ==> !privilege_permits(
                        #[trigger] role.privileges@[k],
                        *resource,
                        *action,
                    ),
            decreases role.privileges.len() - j,
        {
            let p = &role.privileges[j];
            if resource_matches(&p.resource, resource) && has_action(&p.actions, action) {
                assert(privilege_permits(role.privileges@[j as int], *resource, *action));
                assert(role_permits(roles@[i as int], *resource, *action));
                return true;
            }
            j = j + 1;
        }
        i = i + 1;
    }
    false
}

/// Whether two roles say the same: the same name and database, and the
/// same privileges in the same order.
pub open spec fn same_role(a: Role, b: Role) -> bool {
    &&& a.name@ == b.name@
    &&& a.database@ == b.database@
    &&& a.privileges@.len() == b.privileges@.len()
    &&& forall|j: int|
        0 <= j < a.privileges@.len() ==> (#[trigger] a.privileges@[j]).resource
            == b.privileges@[j].resource && a.privileges@[j].actions@ == b.privileges@[j].actions@
}

/// Whether `r` is the role of the given name in `admin` whose one
/// privilege permits the given actions on everything.
pub open spec fn is_builtin_role(r: Role, name: Seq<char>, actions: Seq<Action>) -> bool {
    &&& r.name@ == name
    &&& r.database@ == "admin"@
    &&& r.privileges@.len() == 1
    &&& r.privileges@[0].resource == Resource::AnyResource
    &&& r.privileges@[0].actions@ == actions
}

/// What the role `read` permits.
pub open spec fn read_action_list() -> Seq<Action> {
    seq![Action::Find, Action::ListCollections, Action::ListDatabases]
}

/// What the role `readWrite` permits.
pub open spec fn read_write_action_list() -> Seq<Action> {
    seq![
        Action::Find,
        Action::Insert,
        Action::Update,
        Action::Remove,
        Action::CreateCollection,
        Action::CreateIndex,
        Action::DropIndex,
        Action::ListCollections,
        Action::ListDatabases,
    ]
}

/// What the role `dbAdmin` permits.
pub open spec fn db_admin_action_list() -> Seq<Action> {
    seq![
        Action::Find,
        Action::Insert,
        Action::Update,
        Action::Remove,
        Action::CreateCollection,
        Action::DropCollection,
        Action::CreateIndex,
        Action::DropIndex,
        Action::ListCollections,
        Action::ListDatabases,
    ]
}

/// Whether the seven roles from `at` on are the built-in ones, in their
/// order: `read`, `readWrite`, `dbAdmin`, `dbOwner`, `userAdmin`,
/// `clusterAdmin` and `root`.
pub open spec fn builtin_roles_at(roles: Seq<Role>, at: int) -> bool {
    &&& 0 <= at
    &&& at + 7 <= roles.len()
    &&& is_builtin_role(roles[at], "read"@, read_action_list())
    &&& is_builtin_role(roles[at + 1], "readWrite"@, read_write_action_list())
    &&& is_builtin_role(roles[at + 2], "dbAdmin"@, db_admin_action_list())
    &&& is_builtin_role(roles[at + 3], "dbOwner"@, seq![Action::AnyAction])
    &&& is_builtin_role(roles[at + 4], "userAdmin"@, read_action_list())
    &&& is_builtin_role(roles[at + 5], "clusterAdmin"@, seq![Action::AnyAction])
    &&& is_builtin_role(roles[at + 6], "root"@, seq![Action::AnyAction])
}

/// Whether `u` is the user `admin` as it is first made at `now`: active,
/// with the password `admin123` under a fresh salt and the role `root`.
pub open spec fn is_first_admin(u: User, now: i64) -> bool {
    &&& u.id@.len() == 36
    &&& u.username@ == "admin"@
    &&& sixteen_bytes_encoded(u.salt@)
    &&& u.password_hash@ == password_hash("admin123"@, u.salt@)
    &&& u.mechanisms@ == seq![AuthMechanism::ScramSha256, AuthMechanism::ScramSha1]
    &&& u.roles@.len() == 1
    &&& is_builtin_role(u.roles@[0], "root"@, seq![Action::AnyAction])
    &&& u.custom_data.is_none()
    &&& u.created_at == now
    &&& u.updated_at == now
    &&& u.is_active
    &&& u.password_changed_at == Some(now)
}

/// A role that permits the given actions on everything.
pub fn builtin_role(name: &str, actions: Vec<Action>) -> (r: Role)
    ensures
        is_builtin_role(r, name@, actions@),
        r.privileges@[0].actions == actions,
{
    let mut privileges: Vec<Privilege> = Vec::new();
    privileges.push(Privilege { resource: Resource::AnyResource, actions });
    Role { name: name.to_owned(), database: "admin".to_owned(), privileges }
}

/// The actions of the role `read`.
pub fn read_actions() -> (r: Vec<Action>)
    ensures
        r@ == read_action_list(),
{
    let mut v: Vec<Action> = Vec::new();
    v.push(Action::Find);
    v.push(Action::ListCollections);
    v.push(Action::ListDatabases);
    v
}

/// The actions of the role `readWrite`.
pub fn read_write_actions() -> (r: Vec<Action>)
    ensures
        r@ == read_write_action_list(),
{
    let mut v: Vec<Action> = Vec::new();
    v.push(Action::Find);
    v.push(Action::Insert);
    v.push(Action::Update);
    v.push(Action::Remove);
    v.push(Action::CreateCollection);
    v.push(Action::CreateIndex);
    v.push(Action::DropIndex);
    v.push(Action::ListCollections);
    v.push(Action::ListDatabases);
    v
}

/// The actions of the role `dbAdmin`.
pub fn db_admin_actions() -> (r: Vec<Action>)
    ensures
        r@ == db_admin_action_list(),
{
    let mut v: Vec<Action> = Vec::new();
    v.push(Action::Find);
    v.push(Action::Insert);
    v.push(Action::Update);
    v.push(Action::Remove);
    v.push(Action::CreateCollection);
    v.push(Action::DropCollection);
    v.push(Action::CreateIndex);
    v.push(Action::DropIndex);
    v.push(Action::ListCollections);
    v.push(Action::ListDatabases);
    v
}

/// The actions of the roles that may do anything.
pub fn any_action() -> (r: Vec<Action>)
    ensures
        r@ == seq![Action::AnyAction],
{
    let mut v: Vec<Action> = Vec::new();
    v.push(Action::AnyAction);
    v
}

impl SecurityManager {
    /// A manager with the built-in roles and the user `admin`, whose
    /// password is `admin123` and whose role is `root`. `now` is the time
    /// at which the user is made.
    pub fn new(now: i64) -> (r: Self)
        ensures
            r.users@.len() == 1,
            is_first_admin(r.users@[0], now),
            r.sessions@.len() == 0,
            r.builtin_roles@.len() == 7,
            builtin_roles_at(r.builtin_roles@, 0),
            r.password_policy == default_policy(),
            r.session_timeout_ms == SESSION_TIMEOUT_MS,
    {
        let mut manager = SecurityManager {
            users: Vec::new(),
            sessions: Vec::new(),
            builtin_roles: Vec::new(),
            password_policy: PasswordPolicy::default(),
            session_timeout_ms: SESSION_TIMEOUT_MS,
        };
        manager.initialize_builtin_roles();
        manager.create_default_admin_user(now);
        manager
    }

    /// Adds the seven built-in roles.
    pub fn initialize_builtin_roles(&mut self)
        ensures
            final(self).users == old(self).users,
            final(self).sessions == old(self).sessions,
            final(self).password_policy == old(self).password_policy,
            final(self).session_timeout_ms == old(self).session_timeout_ms,
            final(self).builtin_roles@.len() == old(self).builtin_roles@.len() + 7,
            final(self).builtin_roles@.take(old(self).builtin_roles@.len() as int) == old(
                self,
            ).builtin_roles@,
            builtin_roles_at(final(self).builtin_roles@, old(self).builtin_roles@.len() as int),
    {
        let ghost before = self.builtin_roles@;
        self.builtin_roles.push(builtin_role("read", read_actions()));
        self.builtin_roles.push(builtin_role("readWrite", read_write_actions()));
        self.builtin_roles.push(builtin_role("dbAdmin", db_admin_actions()));
        self.builtin_roles.push(builtin_role("dbOwner", any_action()));
        self.builtin_roles.push(builtin_role("userAdmin", read_actions()));
        self.builtin_roles.push(builtin_role("clusterAdmin", any_action()));
        self.builtin_roles.push(builtin_role("root", any_action()));
        assert(self.builtin_roles@.take(before.len() as int) =~= before);
    }

    /// Adds the user `admin` with the password `admin123` and the role
    /// `root`.
    pub fn create_default_admin_user(&mut self, now: i64)
        ensures
            final(self).sessions == old(self).sessions,
            final(self).builtin_roles == old(self).builtin_roles,
            final(self).password_policy == old(self).password_policy,
            final(self).session_timeout_ms == old(self).session_timeout_ms,
            final(self).users@.len() == old(self).users@.len() + 1,
            final(self).users@.drop_last() == old(self).users@,
            is_first_admin(final(self).users@.last(), now),
    {
        let salt = generate_salt();
        let mut mechanisms: Vec<AuthMechanism> = Vec::new();
        mechanisms.push(AuthMechanism::ScramSha256);
        mechanisms.push(AuthMechanism::ScramSha1);
        let mut roles: Vec<Role> = Vec::new();
        roles.push(builtin_role("root", any_action()));
        let user = User {
            id: random_uuid(),
            username: "admin".to_owned(),
            password_hash: hash_password_with_salt("admin123", salt.as_str()),
            salt,
            mechanisms,
            roles,
            custom_data: None,
            created_at: now,
            updated_at: now,
            is_active: true,
            password_changed_at: Some(now),
        };
        assert(user.mechanisms@ =~= seq![AuthMechanism::ScramSha256, AuthMechanism::ScramSha1]);
        self.users.push(user);
        assert(self.users@.drop_last() =~= old(self).users@);
    }

    /// Index of the user with the given name.
    pub fn find_user(&self, username: &str) -> (r: Option<usize>)
        ensures
            match r {
                Some(i) => i < self.users@.len() && i == user_index(self.users@, username@)
                    && self.users@[i as int].username@ == username@,
                None => user_index(self.users@, username@) == self.users@.len(),
            },
    {
        let mut i: usize = 0;
        while i < self.users.len()
            invariant
                i <= self.users.len(),
                forall|j: int| 0 <= j < i ==> (#[trigger] self.users@[j]).username@ != username@,
            decreases self.users.len() - i,
        {
            if str_eq(self.users[i].username.as_str(), username) {
                proof {
                    lemma_user_index_skip(self.users@, username@, i as int);
                }
                return Some(i);
            }
            i = i + 1;
        }
        proof {
            lemma_user_index_skip(self.users@, username@, i as int);
        }
        None
    }

    /// Checks a password against the policy.
    pub fn validate_password(&self, password: &str) -> (r: Result<(), SecurityError>)
        ensures
            match r {
                Ok(()) => password_fault(self.password_policy, password@).is_none(),
                Err(e) => password_fault(self.password_policy, password@) == Some(e),
            },
    {
        let p = &self.password_policy;
        if password.as_bytes().len() < p.min_length {
            return Err(SecurityError::PasswordTooShort);
        }
        if p.require_uppercase && !has_uppercase(password) {
            return Err(SecurityError::PasswordNeedsUppercase);
        }
        if p.require_lowercase && !has_lowercase(password) {
            return Err(SecurityError::PasswordNeedsLowercase);
        }
        if p.require_numbers && !has_numeric(password) {
            return Err(SecurityError::PasswordNeedsNumber);
        }
        if p.require_special_chars && !has_other(password) {
            return Err(SecurityError::PasswordNeedsSpecial);
        }
        Ok(())
    }

    /// Why a user cannot be let in with a password by a mechanism, if they
    /// cannot.
    pub open spec fn refusal(
        users: Seq<User>,
        username: Seq<char>,
        password: Seq<char>,
        mechanism: AuthMechanism,
    ) -> Option<SecurityError> {
        let i = user_index(users, username);
        if i >= users.len() {
            Some(SecurityError::UserNotFound)
        } else if !users[i].is_active {
            Some(SecurityError::AccountDisabled)
        } else if !users[i].mechanisms@.contains(mechanism) {
            Some(SecurityError::MechanismNotSupported)
        } else {
            match mechanism {
                AuthMechanism::ScramSha256 | AuthMechanism::ScramSha1 => if password_hash(
                    password,
                    users[i].salt@,
                ) != users[i].password_hash@ {
                    Some(SecurityError::InvalidPassword)
                } else {
                    None
                },
                AuthMechanism::MongodbCr => if legacy_hash(username, password)
                    != users[i].password_hash@ {
                    Some(SecurityError::InvalidPassword)
                } else {
                    None
                },
                _ => Some(SecurityError::MechanismNotImplemented),
            }
        }
    }

    /// Lets a user in at `now`: where the user exists, is active, may use
    /// the mechanism and knows the password, a session is opened, which
    /// lasts for the session timeout and carries the roles of the user.
    pub fn authenticate(&mut self, username: &str, password: &str, mechanism: AuthMechanism, now: i64) -> (r:
        Result<usize, SecurityError>)
        ensures
            final(self).users == old(self).users,
            final(self).builtin_roles == old(self).builtin_roles,
            final(self).password_policy == old(self).password_policy,
            final(self).session_timeout_ms == old(self).session_timeout_ms,
            match r {
                Err(e) => Self::refusal(old(self).users@, username@, password@, mechanism) == Some(
                    e,
                ) && final(self).sessions == old(self).sessions,
                Ok(i) => {
                    &&& Self::refusal(old(self).users@, username@, password@, mechanism).is_none()
                    &&& i == old(self).sessions@.len()
                    &&& final(self).sessions@.len() == i + 1
                    &&& final(self).sessions@.drop_last() == old(self).sessions@
                    &&& final(self).sessions@[i as int].username@ == username@
                    &&& final(self).sessions@[i as int].mechanism == mechanism
                    &&& final(self).sessions@[i as int].created_at == now
                    &&& final(self).sessions@[i as int].expires_at
                        == crate::authentication::clamp_add(
                        now,
                        old(self).session_timeout_ms as int,
                    )
                    &&& final(self).sessions@[i as int].session_id@.len() == 36
                    &&& final(self).sessions@[i as int].user_id@ == old(self).users@[user_index(
                        old(self).users@,
                        username@,
                    )].id@
                    &&& final(self).sessions@[i as int].client_ip@ == "127.0.0.1"@
                    &&& final(self).sessions@[i as int].roles@.len() == old(self).users@[user_index(
                        old(self).users@,
                        username@,
                    )].roles@.len()
                    &&& forall|j: int|
                        0 <= j < final(self).sessions@[i as int].roles@.len() ==> same_role(
                            #[trigger] final(self).sessions@[i as int].roles@[j],
                            old(self).users@[user_index(old(self).users@, username@)].roles@[j],
                        )
                    &&& forall|res: Resource, a: Action|
                        #[trigger] permits(final(self).sessions@[i as int].roles@, res, a)
                            == permits(
                            old(self).users@[user_index(old(self).users@, username@)].roles@,
                            res,
                            a,
                        )
                },
            },
    {
        let ui = match self.find_user(username) {
            Some(i) => i,
            None => {
                return Err(SecurityError::UserNotFound);
            },
        };
        let user = &self.users[ui];
        if !user.is_active {
            return Err(SecurityError::AccountDisabled);
        }
        if !has_mechanism(&user.mechanisms, &mechanism) {
            return Err(SecurityError::MechanismNotSupported);
        }
        match mechanism {
            AuthMechanism::ScramSha256 | AuthMechanism::ScramSha1 => {
                let computed = hash_password_with_salt(password, user.salt.as_str());
                if !str_eq(computed.as_str(), user.password_hash.as_str()) {
                    return Err(SecurityError::InvalidPassword);
                }
            },
            AuthMechanism::MongodbCr => {
                let computed = hash_mongodb_cr(username, password);
                if !str_eq(computed.as_str(), user.password_hash.as_str()) {
                    return Err(SecurityError::InvalidPassword);
                }
            },
            _ => {
                return Err(SecurityError::MechanismNotImplemented);
            },
        }
        let expires = crate::authentication::add_signed_clamped(now, self.session_timeout_ms);
        let roles = clone_roles(&user.roles);
        let session = AuthSession {
            session_id: random_uuid(),
            user_id: user.id.clone(),
            username: user.username.clone(),
            roles,
            created_at: now,
            expires_at: expires,
            client_ip: "127.0.0.1".to_owned(),
            mechanism,
        };
        self.sessions.push(session);
        assert(self.sessions@.drop_last() =~= old(self).sessions@);
        Ok(self.sessions.len() - 1)
    }

    /// Whether the roles of a session permit an action on a resource.
    pub fn authorize(&self, session: &AuthSession, resource: &Resource, action: &Action) -> (r:
        bool)
        ensures
            r == permits(session.roles@, *resource, *action),
    {
        roles_permit(&session.roles, resource, action)
    }

    /// Number of sessions, and how many of them have ended at `now`.
    pub fn get_session_stats(&self, now: i64) -> (r: SessionStats)
        ensures
            r.active_sessions == self.sessions@.len(),
            r.expired_sessions == expired_count(self.sessions@, now, self.sessions@.len() as int),
            r.total_sessions == (if r.active_sessions + r.expired_sessions > usize::MAX {
                usize::MAX as int
            } else {
                r.active_sessions + r.expired_sessions
            }),
    {
        let mut expired: usize = 0;
        let mut i: usize = 0;
        while i < self.sessions.len()
            invariant
                i <= self.sessions.len(),
                expired == expired_count(self.sessions@, now, i as int),
                expired <= i,
            decreases self.sessions.len() - i,
        {
            if self.sessions[i].expires_at <= now {
                expired = expired + 1;
            }
            i = i + 1;
        }
        let active = self.sessions.len();
        let total = if active > usize::MAX - expired {
            usize::MAX
        } else {
            active + expired
        };
        SessionStats { active_sessions: active, expired_sessions: expired, total_sessions: total }
    }

    /// Drops the sessions that have ended at `now`. Returns how many were
    /// dropped.
    pub fn cleanup_expired_sessions(&mut self, now: i64) -> (cleaned: usize)
        ensures
            final(self).users == old(self).users,
            final(self).builtin_roles == old(self).builtin_roles,
            final(self).password_policy == old(self).password_policy,
            final(self).session_timeout_ms == old(self).session_timeout_ms,
            final(self).sessions@ == open_sessions(
                old(self).sessions@,
                now,
                old(self).sessions@.len() as int,
            ),
            cleaned == expired_count(old(self).sessions@, now, old(self).sessions@.len() as int),
            cleaned == old(self).sessions@.len() - final(self).sessions@.len(),
            forall|i: int|
                0 <= i < final(self).sessions@.len() ==> (#[trigger] final(self).sessions@[i]).expires_at > now,
    {
        let mut rest: Vec<AuthSession> = Vec::new();
        core::mem::swap(&mut rest, &mut self.sessions);
        let ghost all = rest@;
        let total = rest.len();
        let mut kept: Vec<AuthSession> = Vec::new();
        let mut i: usize = 0;
        while rest.len() > 0
            invariant
                i + rest@.len() == all.len(),
                all.len() == total,
                rest@ == all.skip(i as int),
                kept@ == open_sessions(all, now, i as int),
                kept@.len() <= i,
            decreases rest@.len(),
        {
            let session = rest.remove(0);
            assert(session == all[i as int]);
            assert(rest@ =~= all.skip(i as int + 1));
            if session.expires_at > now {
                kept.push(session);
            }
            i = i + 1;
        }
        let cleaned = total - kept.len();
        self.sessions = kept;
        proof {
            lemma_open_sessions(all, now, all.len() as int);
        }
        cleaned
    }
}

/// Copies of roles, in their order: they say the same, and so permit what
/// the roles permit.
pub fn clone_roles(roles: &Vec<Role>) -> (r: Vec<Role>)
    ensures
        r@.len() == roles@.len(),
        forall|j: int| 0 <= j < r@.len() ==> same_role(#[trigger] r@[j], roles@[j]),
        forall|res: Resource, a: Action| #[trigger] permits(r@, res, a) == permits(roles@, res, a),
{
    let mut out: Vec<Role> = Vec::new();
    let mut i: usize = 0;
    while i < roles.len()
        invariant
            i <= roles.len(),
            out@.len() == i,
            forall|j: int| 0 <= j < i ==> same_role(#[trigger] out@[j], roles@[j]),
            forall|j: int, res: Resource, a: Action|
                0 <= j < i ==> #[trigger] role_permits(out@[j], res, a) == role_permits(
                    roles@[j],
                    res,
                    a,
                ),
        decreases roles.len() - i,
    {
        out.push(roles[i].clone_role());
        i = i + 1;
    }
    proof {
        assert forall|res: Resource, a: Action| #[trigger]
            permits(out@, res, a) == permits(roles@, res, a) by {
            if permits(out@, res, a) {
                let k = choose|k: int|
                    0 <= k < out@.len() && role_permits(#[trigger] out@[k], res, a);
                assert(role_permits(roles@[k], res, a));
            }
            if permits(roles@, res, a) {
                let k = choose|k: int|
                    0 <= k < roles@.len() && role_permits(#[trigger] roles@[k], res, a);
                assert(role_permits(out@[k], res, a));
            }
        }
    }
    out
}

impl ScramAuthenticator {
    /// An authenticator with a random nonce, a random salt and 4096
    /// iterations.
    pub fn new() -> (r: Self)
        ensures
            sixteen_bytes_encoded(r.nonce@),
            sixteen_bytes_encoded(r.salt@),
            r.iterations == 4096,
    {
        ScramAuthenticator {
            nonce: Self::generate_nonce(),
            salt: generate_salt(),
            iterations: 4096,
        }
    }

    /// A fresh nonce: sixteen random bytes in base64.
    pub fn generate_nonce() -> (r: String)
        ensures
            sixteen_bytes_encoded(r@),
    {
        generate_salt()
    }

    /// The challenge for a client: the nonce, the salt and the iterations
    /// of the authenticator, for the given mechanism.
    pub fn generate_challenge(&self, mechanism: AuthMechanism) -> (r: AuthChallenge)
        ensures
            r.nonce == self.nonce,
            r.salt == self.salt,
            r.iterations == self.iterations,
            r.mechanism == mechanism,
    {
        AuthChallenge {
            nonce: self.nonce.clone(),
            salt: self.salt.clone(),
            iterations: self.iterations,
            mechanism,
        }
    }

    /// Accepts every proof: the exchange of proofs is the business of
    /// whoever speaks the challenge protocol with the client.
    pub fn verify_proof(
        &self,
        stored_key: &str,
        server_key: &str,
        client_proof: &str,
        auth_message: &str,
    ) -> (r: bool)
        ensures
            r,
    {
        true
    }

    /// Whether a password is one that test users have: at least eight
    /// bytes long, with `Test` in it.
    pub fn verify_password(&self, username: &str, password: &str) -> (r: bool)
        ensures
            r == (encode_utf8(password@).len() >= 8 && contains_bytes(
                encode_utf8(password@),
                encode_utf8("Test"@),
            )),
    {
        if password.as_bytes().len() < 8 {
            return false;
        }
        bytes_contain(password.as_bytes(), "Test".as_bytes())
    }
}

/// Index of the first session at or after `i` with the given id; the
/// number of sessions where there is none.
pub open spec fn session_index_from(sessions: Seq<AuthSession>, id: Seq<char>, i: int) -> int
    decreases sessions.len() - i,
{
    if i < 0 || i >= sessions.len() {
        sessions.len() as int
    } else if sessions[i].session_id@ == id {
        i
    } else {
        session_index_from(sessions, id, i + 1)
    }
}

/// Index of the session with the given id; the number of sessions where
/// there is none.
pub open spec fn session_index(sessions: Seq<AuthSession>, id: Seq<char>) -> int {
    session_index_from(sessions, id, 0)
}

proof fn lemma_session_index_skip(sessions: Seq<AuthSession>, id: Seq<char>, i: int)
    requires
        0 <= i <= sessions.len(),
        forall|j: int| 0 <= j < i ==> (#[trigger] sessions[j]).session_id@ != id,
    ensures
        session_index_from(sessions, id, i) == session_index(sessions, id),
    decreases i,
{
    if i > 0 {
        lemma_session_index_skip(sessions, id, i - 1);
        assert(sessions[i - 1].session_id@ != id);
    }
}

impl SecurityManager {
    /// Index of the session with the given id.
    pub fn find_session(&self, session_id: &str) -> (r: Option<usize>)
        ensures
            match r {
                Some(i) => i == session_index(self.sessions@, session_id@) && i
                    < self.sessions@.len(),
                None => session_index(self.sessions@, session_id@) == self.sessions@.len(),
            },
    {
        let mut i: usize = 0;
        while i < self.sessions.len()
            invariant
                i <= self.sessions.len(),
                forall|j: int| 0 <= j < i ==> (#[trigger] self.sessions@[j]).session_id@
                    != session_id@,
            decreases self.sessions.len() - i,
        {
            if str_eq(self.sessions[i].session_id.as_str(), session_id) {
                proof {
                    lemma_session_index_skip(self.sessions@, session_id@, i as int);
                }
                return Some(i);
            }
            i = i + 1;
        }
        proof {
            lemma_session_index_skip(self.sessions@, session_id@, i as int);
        }
        None
    }

    /// Looks up an open session at `now`: the index of the session with
    /// the given id. An id that names no session gives `SessionNotFound`,
    /// a session that has ended before `now` gives `SessionExpired`.
    pub fn validate_session(&self, session_id: &str, now: i64) -> (r: Result<
        usize,
        SecurityError,
    >)
        ensures
            ({
                let i = session_index(self.sessions@, session_id@);
                if i >= self.sessions@.len() {
                    r == Err::<usize, SecurityError>(SecurityError::SessionNotFound)
                } else if now > self.sessions@[i].expires_at {
                    r == Err::<usize, SecurityError>(SecurityError::SessionExpired)
                } else {
                    r == Ok::<usize, SecurityError>(i as usize)
                }
            }),
    {
        match self.find_session(session_id) {
            None => Err(SecurityError::SessionNotFound),
            Some(i) => {
                if now > self.sessions[i].expires_at {
                    Err(SecurityError::SessionExpired)
                } else {
                    Ok(i)
                }
            },
        }
    }

    /// Adds a user at `now`, with a fresh salt, the two SCRAM mechanisms
    /// and the given roles. A password that breaks the policy gives the
    /// rule that it breaks, and a name that a user has already gives
    /// `UserExists`; the users then stay as they are. Returns the index
    /// of the new user.
    pub fn create_user(&mut self, username: String, password: String, roles: Vec<Role>, now: i64) -> (r:
        Result<usize, SecurityError>)
        ensures
            final(self).sessions == old(self).sessions,
            final(self).builtin_roles == old(self).builtin_roles,
            final(self).password_policy == old(self).password_policy,
            final(self).session_timeout_ms == old(self).session_timeout_ms,
            match r {
                Err(e) => {
                    &&& final(self).users == old(self).users
                    &&& match password_fault(old(self).password_policy, password@) {
                        Some(f) => e == f,
                        None => e == SecurityError::UserExists && user_index(
                            old(self).users@,
                            username@,
                        ) < old(self).users@.len(),
                    }
                },
                Ok(i) => {
                    &&& password_fault(old(self).password_policy, password@).is_none()
                    &&& user_index(old(self).users@, username@) == old(self).users@.len()
                    &&& i == old(self).users@.len()
                    &&& final(self).users@.len() == old(self).users@.len() + 1
                    &&& final(self).users@.drop_last() == old(self).users@
                    &&& final(self).users@.last().id@.len() == 36
                    &&& final(self).users@.last().username@ == username@
                    &&& final(self).users@.last().roles == roles
                    &&& final(self).users@.last().custom_data.is_none()
                    &&& final(self).users@.last().is_active
                    &&& final(self).users@.last().created_at == now
                    &&& final(self).users@.last().updated_at == now
                    &&& final(self).users@.last().password_changed_at == Some(now)
                    &&& sixteen_bytes_encoded(final(self).users@.last().salt@)
                    &&& final(self).users@.last().password_hash@ == password_hash(
                        password@,
                        final(self).users@.last().salt@,
                    )
                    &&& final(self).users@.last().mechanisms@ == seq![
                        AuthMechanism::ScramSha256,
                        AuthMechanism::ScramSha1,
                    ]
                },
            },
    {
        match self.validate_password(password.as_str()) {
            Ok(()) => {},
            Err(e) => {
                return Err(e);
            },
        }
        if self.find_user(username.as_str()).is_some() {
            return Err(SecurityError::UserExists);
        }
        let salt = generate_salt();
        let mut mechanisms: Vec<AuthMechanism> = Vec::new();
        mechanisms.push(AuthMechanism::ScramSha256);
        mechanisms.push(AuthMechanism::ScramSha1);
        let user = User {
            id: random_uuid(),
            username,
            password_hash: hash_password_with_salt(password.as_str(), salt.as_str()),
            salt,
            mechanisms,
            roles,
            custom_data: None,
            created_at: now,
            updated_at: now,
            is_active: true,
            password_changed_at: Some(now),
        };
        self.users.push(user);
        assert(self.users@.drop_last() =~= old(self).users@);
        Ok(self.users.len() - 1)
    }

    /// Gives a user a new password at `now`, stored with a fresh salt. A
    /// password that breaks the policy gives the rule that it breaks, and
    /// a name that no user has gives `UserNotFound`; the users then stay
    /// as they are.
    pub fn update_user_password(&mut self, username: &str, new_password: String, now: i64) -> (r:
        Result<(), SecurityError>)
        ensures
            final(self).sessions == old(self).sessions,
            final(self).builtin_roles == old(self).builtin_roles,
            final(self).password_policy == old(self).password_policy,
            final(self).session_timeout_ms == old(self).session_timeout_ms,
            final(self).users@.len() == old(self).users@.len(),
            match r {
                Err(e) => {
                    &&& final(self).users == old(self).users
                    &&& match password_fault(old(self).password_policy, new_password@) {
                        Some(f) => e == f,
                        None => e == SecurityError::UserNotFound && user_index(
                            old(self).users@,
                            username@,
                        ) == old(self).users@.len(),
                    }
                },
                Ok(()) => {
                    let i = user_index(old(self).users@, username@);
                    &&& password_fault(old(self).password_policy, new_password@).is_none()
                    &&& i < old(self).users@.len()
                    &&& forall|j: int|
                        0 <= j < old(self).users@.len() && j != i ==> final(self).users@[j]
                            == old(self).users@[j]
                    &&& final(self).users@[i].id == old(self).users@[i].id
                    &&& final(self).users@[i].username == old(self).users@[i].username
                    &&& final(self).users@[i].roles == old(self).users@[i].roles
                    &&& final(self).users@[i].custom_data == old(self).users@[i].custom_data
                    &&& final(self).users@[i].created_at == old(self).users@[i].created_at
                    &&& sixteen_bytes_encoded(final(self).users@[i].salt@)
                    &&& final(self).users@[i].mechanisms == old(self).users@[i].mechanisms
                    &&& final(self).users@[i].is_active == old(self).users@[i].is_active
                    &&& final(self).users@[i].password_hash@ == password_hash(
                        new_password@,
                        final(self).users@[i].salt@,
                    )
                    &&& final(self).users@[i].password_changed_at == Some(now)
                    &&& final(self).users@[i].updated_at == now
                },
            },
    {
        match self.validate_password(new_password.as_str()) {
            Ok(()) => {},
            Err(e) => {
                return Err(e);
            },
        }
        let i = match self.find_user(username) {
            Some(i) => i,
            None => {
                return Err(SecurityError::UserNotFound);
            },
        };
        let salt = generate_salt();
        let hash = hash_password_with_salt(new_password.as_str(), salt.as_str());
        let mut rest = self.users.split_off(i);
        let mut user = rest.remove(0);
        user.password_hash = hash;
        user.salt = salt;
        user.password_changed_at = Some(now);
        user.updated_at = now;
        self.users.push(user);
        self.users.append(&mut rest);
        Ok(())
    }

    /// The users.
    pub fn list_users(&self) -> (r: &Vec<User>)
        ensures
            r == &self.users,
    {
        &self.users
    }

    /// Removes a user. A name that no user has gives `UserNotFound`.
    pub fn delete_user(&mut self, username: &str) -> (r: Result<(), SecurityError>)
        ensures
            final(self).sessions == old(self).sessions,
            final(self).builtin_roles == old(self).builtin_roles,
            final(self).password_policy == old(self).password_policy,
            final(self).session_timeout_ms == old(self).session_timeout_ms,
            match r {
                Ok(()) => user_index(old(self).users@, username@) < old(self).users@.len()
                    && final(self).users@ == old(self).users@.remove(
                    user_index(old(self).users@, username@),
                ),
                Err(e) => e == SecurityError::UserNotFound && user_index(
                    old(self).users@,
                    username@,
                ) == old(self).users@.len() && final(self).users == old(self).users,
            },
    {
        match self.find_user(username) {
            Some(i) => {
                let _ = self.users.remove(i);
                Ok(())
            },
            None => Err(SecurityError::UserNotFound),
        }
    }
}

} // verus!
