//! A project: its files, who may open it, and its settings.

use argon2::password_hash::rand_core::OsRng;
use argon2::password_hash::{PasswordHash, PasswordHasher, PasswordVerifier, SaltString};
use argon2::Argon2;
use vstd::prelude::*;
use vstd::utf8::encode_utf8;

use crate::access::AccessLevel;
use crate::auth::HttpErrors;
use crate::document::DocumentState;
use crate::errors::ServerMessageError;
use crate::paths::{is_valid_file_path, valid_file_path};
use crate::strmap::StrMap;
use crate::text::{
    char_is_control, chars_of, is_control, is_ws, lemma_trim_unpadded, push_chars, string_from_chars,
    trim, trim_spec,
};
use crate::users::UserRegistry;

verus! {

/// Most files a project may hold.
pub const MAX_PROJECT_FILES: usize = 256;

/// Longest project name, in characters.
pub const MAX_PROJECT_NAME_CHARS: usize = 128;

/// Longest project password, in bytes.
pub const MAX_PROJECT_PASSWORD_BYTES: usize = 256;

/// Whether `password` matches the Argon2 hash `hash` (a PHC string).
pub uninterp spec fn password_verifies(password: Seq<char>, hash: Seq<char>) -> bool;

/// Calls `PasswordHash::new` on `hash` and `Argon2::verify_password` with the
/// bytes of `password`; a hash that does not parse matches nothing.
#[verifier::external_body]
fn argon2_verify(password: &str, hash: &str) -> (r: bool)
    ensures
        r == password_verifies(password@, hash@),
{
    match PasswordHash::new(hash) {
        Ok(parsed) => Argon2::default().verify_password(password.as_bytes(), &parsed).is_ok(),
        Err(_) => false,
    }
}

/// How the PHC string of an Argon2 hash under the crate's default settings
/// begins: the algorithm Argon2id, version 19, 19456 KiB of memory, two
/// passes and one lane. The salt and the hash follow.
pub open spec fn argon2_default_prefix() -> Seq<char> {
    "$argon2id$v=19$m=19456,t=2,p=1$"@
}

/// Calls `SaltString::generate` with the operating system's random source and
/// `Argon2::hash_password`, and renders the hash as a PHC string. The only
/// error of `hash_password` with the default settings and a generated salt
/// is a password of more than `u32::MAX` bytes; the string starts with the
/// algorithm, version and parameters. The salt is random, so the hash is not
/// a function of the password, and the salt and hash parts are left unsaid;
/// what holds of every outcome is that verifying the same password against
/// the hash succeeds, which is what the crate's verifier is for.
#[verifier::external_body]
fn argon2_hash(password: &str) -> (r: Option<String>)
    ensures
        encode_utf8(password@).len() <= 0xFFFF_FFFF ==> r is Some,
        r matches Some(h) ==> password_verifies(password@, h@),
        r matches Some(h) ==> argon2_default_prefix().is_prefix_of(h@),
{
    let salt = SaltString::generate(&mut OsRng);
    Argon2::default().hash_password(password.as_bytes(), &salt).map(|hash| hash.to_string()).ok()
}

/// Calls `uuid::Uuid::new_v4` and takes its 128 bits: a random id.
#[verifier::external_body]
pub(crate) fn new_project_id() -> (r: u128) {
    uuid::Uuid::new_v4().as_u128()
}

/// The text added to the name of a forked project.
pub open spec fn fork_suffix() -> Seq<char> {
    seq![' ', '(', 'f', 'o', 'r', 'k', ')']
}

pub open spec fn fork_name_spec(name: Seq<char>) -> Seq<char> {
    if name.len() >= 7 && name.skip(name.len() - 7) == fork_suffix() {
        name
    } else {
        name + fork_suffix()
    }
}

/// The name of a fork: the suffix ` (fork)` is added once.
pub fn fork_name(name: &str) -> (r: String)
    ensures
        r@ == fork_name_spec(name@),
{
    let cs = chars_of(name);
    let suffix: Vec<char> = vec![' ', '(', 'f', 'o', 'r', 'k', ')'];
    assert(suffix@ =~= fork_suffix());
    let mut ends = cs.len() >= 7;
    if ends {
        let base = cs.len() - 7;
        let mut i: usize = 0;
        while i < 7
            invariant
                i <= 7,
                cs@.len() >= 7,
                base == cs@.len() - 7,
                base + 7 == cs.len(),
                suffix@ == fork_suffix(),
                ends ==> forall|j: int| 0 <= j < i ==> #[trigger] cs@[base + j] == suffix@[j],
                !ends ==> cs@.skip(base as int) != fork_suffix(),
            decreases 7 - i,
        {
            if ends && cs[base + i] != suffix[i] {
                assert(cs@.skip(base as int)[i as int] != fork_suffix()[i as int]);
                ends = false;
            }
            i = i + 1;
        }
        if ends {
            assert forall|j: int| 0 <= j < 7 implies cs@.skip(base as int)[j] == fork_suffix()[j] by {
                assert(cs@[base + j] == suffix@[j]);
            }
            assert(cs@.skip(base as int) =~= fork_suffix());
        }
    }
    if ends {
        string_from_chars(cs.as_slice())
    } else {
        let mut out = cs;
        let mut i: usize = 0;
        let ghost start = out@;
        while i < 7
            invariant
                i <= 7,
                suffix@ == fork_suffix(),
                out@ == start + suffix@.take(i as int),
            decreases 7 - i,
        {
            out.push(suffix[i]);
            i = i + 1;
            assert(out@ =~= start + suffix@.take(i as int));
        }
        assert(suffix@.take(7) =~= suffix@);
        string_from_chars(out.as_slice())
    }
}

/// Forking a fork keeps its name.
pub proof fn fork_name_is_idempotent(name: Seq<char>)
    ensures
        fork_name_spec(fork_name_spec(name)) == fork_name_spec(name),
{
    let f = fork_name_spec(name);
    if !(name.len() >= 7 && name.skip(name.len() - 7) == fork_suffix()) {
        assert(f.skip(f.len() - 7) =~= fork_suffix());
    }
}

/// A fork's name always ends with ` (fork)`; it is the original name when
/// that already ends with ` (fork)`, and otherwise the original name with
/// ` (fork)` appended, whatever else the name ends with.
pub proof fn fork_name_appends_the_suffix_once(name: Seq<char>)
    ensures
        ({
            let f = fork_name_spec(name);
            let sfx = seq![' ', '(', 'f', 'o', 'r', 'k', ')'];
            let ends = name.len() >= 7 && name.subrange(name.len() - 7, name.len() as int) == sfx;
            &&& f.len() >= 7
            &&& f.subrange(f.len() - 7, f.len() as int) == sfx
            &&& ends ==> f == name
            &&& !ends ==> f.len() == name.len() + 7 && f.subrange(0, name.len() as int) == name
        }),
{
    let f = fork_name_spec(name);
    let sfx = seq![' ', '(', 'f', 'o', 'r', 'k', ')'];
    assert(sfx =~= fork_suffix());
    if name.len() >= 7 {
        assert(name.skip(name.len() - 7) =~= name.subrange(name.len() - 7, name.len() as int));
    }
    if name.len() >= 7 && name.skip(name.len() - 7) == fork_suffix() {
        assert(f == name);
    } else {
        assert(f == name + fork_suffix());
        assert(f.subrange(f.len() - 7, f.len() as int) =~= sfx);
        assert(f.subrange(0, name.len() as int) =~= name);
    }
}

pub open spec fn valid_name_spec(name: Seq<char>) -> bool {
    let t = trim_spec(name);
    &&& t.len() > 0
    &&& t.len() <= MAX_PROJECT_NAME_CHARS
    &&& forall|i: int| 0 <= i < t.len() ==> !is_control(#[trigger] t[i])
}

/// Whether `name` may name a project: once trimmed it is not empty, has at
/// most 128 characters and no control character.
pub fn is_valid_name(name: &str) -> (r: bool)
    ensures
        r == valid_name_spec(name@),
{
    let trimmed = trim(name);
    let cs = chars_of(trimmed.as_str());
    if cs.len() == 0 || cs.len() > MAX_PROJECT_NAME_CHARS {
        return false;
    }
    let mut i: usize = 0;
    while i < cs.len()
        invariant
            i <= cs@.len(),
            cs@ == trim_spec(name@),
            forall|j: int| 0 <= j < i ==> !is_control(#[trigger] cs@[j]),
        decreases cs@.len() - i,
    {
        if char_is_control(cs[i]) {
            return false;
        }
        i = i + 1;
    }
    true
}

/// A project name is valid exactly when, trimmed, it is non-empty, has at
/// most 128 characters, and holds no C0 control (up to U+001F), DEL or C1
/// control (U+0080 to U+009F); any other character, letters of any script
/// included, is allowed.
pub proof fn valid_names_are_short_and_control_free(name: Seq<char>)
    ensures
        valid_name_spec(name) == ({
            let t = trim_spec(name);
            &&& 0 < t.len() <= 128
            &&& forall|i: int|
                0 <= i < t.len() ==> !(#[trigger] t[i] <= '\u{1f}' || ('\u{7f}' <= t[i] && t[i]
                    <= '\u{9f}'))
        }),
{
}

/// A name of 1 to 128 characters that neither starts nor ends with
/// whitespace and holds no control character is valid as it is.
pub proof fn control_free_names_are_valid(name: Seq<char>)
    requires
        0 < name.len() <= 128,
        !is_ws(name[0]),
        !is_ws(name[name.len() - 1]),
        forall|i: int|
            0 <= i < name.len() ==> !(#[trigger] name[i] <= '\u{1f}' || ('\u{7f}' <= name[i]
                && name[i] <= '\u{9f}')),
    ensures
        valid_name_spec(name),
{
    lemma_trim_unpadded(name);
}

/// A project's access rules and files; `D` is how the caller holds a
/// document.
pub struct Project<D> {
    pub id: u128,
    pub name: String,
    pub owner: String,
    pub documents: StrMap<D>,
    pub allowed_users: StrMap<AccessLevel>,
    pub requests: StrMap<()>,
    pub is_public: bool,
    /// Argon2 hash of the password; the password itself is not kept.
    pub password: Option<String>,
}

/// Whether a password sent to join a project is accepted.
pub open spec fn password_accepted(password: Option<String>, hash: Seq<char>) -> bool {
    match password {
        Some(p) => encode_utf8(p@).len() <= MAX_PROJECT_PASSWORD_BYTES && password_verifies(
            p@,
            hash,
        ),
        None => false,
    }
}

impl<D> Project<D> {
    pub open spec fn wf(&self) -> bool {
        &&& self.documents.wf()
        &&& self.allowed_users.wf()
        &&& self.requests.wf()
    }

    /// A public project without files, users or password.
    pub fn new(owner: String, name: String) -> (r: Self)
        ensures
            r.wf(),
            r.owner == owner,
            r.name == name,
            r.is_public,
            r.password is None,
            r.documents.view() == Map::<Seq<char>, D>::empty(),
            r.allowed_users.view() == Map::<Seq<char>, AccessLevel>::empty(),
            r.requests.view() == Map::<Seq<char>, ()>::empty(),
    {
        Project {
            id: new_project_id(),
            name,
            owner,
            documents: StrMap::new(),
            allowed_users: StrMap::new(),
            requests: StrMap::new(),
            is_public: true,
            password: None,
        }
    }

    /// The settings a fork starts from: a new id, the fork name, the new
    /// owner, the same visibility, and no files, users or password.
    pub fn fork_settings(&self, owner: String) -> (r: Project<D>)
        ensures
            r.wf(),
            r.owner == owner,
            r.name@ == fork_name_spec(self.name@),
            r.is_public == self.is_public,
            r.password is None,
            r.documents.view() == Map::<Seq<char>, D>::empty(),
            r.allowed_users.view() == Map::<Seq<char>, AccessLevel>::empty(),
            r.requests.view() == Map::<Seq<char>, ()>::empty(),
    {
        let mut forked = Project::new(owner, fork_name(self.name.as_str()));
        forked.is_public = self.is_public;
        forked
    }

    /// Records that a user asks for access; true when the request is new.
    pub fn add_request(&mut self, user_id: String) -> (r: bool)
        requires
            old(self).wf(),
        ensures
            final(self).wf(),
            r == !old(self).requests.view().contains_key(user_id@),
            final(self).requests.view() == old(self).requests.view().insert(user_id@, ()),
            final(self).allowed_users.view() == old(self).allowed_users.view(),
            final(self).documents.view() == old(self).documents.view(),
            final(self).password == old(self).password,
            final(self).is_public == old(self).is_public,
            final(self).owner == old(self).owner,
    {
        let known = self.requests.contains_key(&user_id);
        self.requests.insert(user_id, ());
        !known
    }

    /// Grants `access` to a user and settles the user's request.
    pub fn permit_access(&mut self, user_id: String, access: AccessLevel)
        requires
            old(self).wf(),
        ensures
            final(self).wf(),
            final(self).requests.view() == old(self).requests.view().remove(user_id@),
            final(self).allowed_users.view() == old(self).allowed_users.view().insert(
                user_id@,
                access,
            ),
            final(self).documents.view() == old(self).documents.view(),
            final(self).password == old(self).password,
            final(self).is_public == old(self).is_public,
            final(self).owner == old(self).owner,
            final(self).name == old(self).name,
    {
        let _ = self.requests.remove(&user_id);
        self.allowed_users.insert(user_id, access);
    }

    /// The owner grants `access` to a user; anyone else is refused.
    pub fn permit_access_by(&mut self, requester: &String, user_id: String, access: AccessLevel) -> (r:
        Result<(), ServerMessageError>)
        requires
            old(self).wf(),
        ensures
            final(self).wf(),
            permit_outcome(*old(self), *final(self), requester@, user_id@, access, r),
    {
        if *requester != self.owner {
            return Err(ServerMessageError::NotOwner);
        }
        self.permit_access(user_id, access);
        Ok(())
    }

    /// Whether `password` opens this project.
    fn password_matches(&self, password: &Option<String>) -> (r: bool)
        ensures
            r == (self.password matches Some(h) && password_accepted(*password, h@)),
    {
        match (&self.password, password) {
            (Some(hash), Some(p)) => {
                if p.as_str().as_bytes().len() > MAX_PROJECT_PASSWORD_BYTES {
                    return false;
                }
                argon2_verify(p.as_str(), hash.as_str())
            },
            _ => false,
        }
    }

    /// The access a user gets on joining. A user with access keeps it; on
    /// a private project everyone else waits in the queue; on a public one
    /// anyone else becomes a reader, provided they know the password when
    /// there is one.
    pub fn join_project(&mut self, user_id: String, password: Option<String>) -> (r: Result<
        AccessLevel,
        HttpErrors,
    >)
        requires
            old(self).wf(),
        ensures
            final(self).wf(),
            join_outcome(*old(self), *final(self), user_id@, password, r),
    {
        match self.allowed_users.get(&user_id) {
            Some(access) => {
                return Ok(*access);
            },
            None => {},
        }
        if !self.is_public {
            return Ok(AccessLevel::Queue);
        }
        if self.password.is_some() && !self.password_matches(&password) {
            return Err(HttpErrors::InvalidPassword);
        }
        self.permit_access(user_id, AccessLevel::ReadOnly);
        Ok(AccessLevel::ReadOnly)
    }

    /// Replaces the password by the hash of `password`, or removes it.
    pub fn set_password(&mut self, password: Option<&str>) -> (r: Result<(), ()>)
        ensures
            final(self).wf() == old(self).wf(),
            password is None ==> r is Ok && final(self).password is None,
            password matches Some(p) ==> (r is Ok ==> (final(self).password matches Some(h)
                && password_verifies(p@, h@) && argon2_default_prefix().is_prefix_of(h@))),
            password matches Some(p) && encode_utf8(p@).len() <= 0xFFFF_FFFF ==> r is Ok,
            r is Err ==> final(self).password == old(self).password,
            final(self).allowed_users == old(self).allowed_users,
            final(self).requests == old(self).requests,
            final(self).documents == old(self).documents,
            final(self).is_public == old(self).is_public,
            final(self).owner == old(self).owner,
            final(self).name == old(self).name,
            final(self).id == old(self).id,
    {
        match password {
            None => {
                self.password = None;
                Ok(())
            },
            Some(p) => match argon2_hash(p) {
                Some(h) => {
                    self.password = Some(h);
                    Ok(())
                },
                None => Err(()),
            },
        }
    }

    /// The owner changes the settings. Name and visibility change first; an
    /// empty password removes the password, a longer one than 256 bytes is
    /// refused, and a new password is only set on a public project.
    pub fn apply_config(
        &mut self,
        requester: &String,
        name: Option<String>,
        is_public: Option<bool>,
        password: Option<String>,
    ) -> (r: Result<(), ServerMessageError>)
        requires
            old(self).wf(),
        ensures
            final(self).wf(),
            config_outcome(*old(self), *final(self), requester@, name, is_public, password, r),
    {
        if *requester != self.owner {
            return Err(ServerMessageError::NotOwner);
        }
        match name {
            Some(n) => {
                self.name = n;
            },
            None => {},
        }
        match is_public {
            Some(b) => {
                self.is_public = b;
            },
            None => {},
        }
        match password {
            None => Ok(()),
            Some(p) => {
                if p.as_str().is_empty() {
                    let _ = self.set_password(None);
                    Ok(())
                } else if p.as_str().as_bytes().len() > MAX_PROJECT_PASSWORD_BYTES {
                    Err(ServerMessageError::PasswordTooLong)
                } else if self.is_public {
                    match self.set_password(Some(p.as_str())) {
                        Ok(()) => Ok(()),
                        Err(()) => Err(
                            ServerMessageError::InvalidOperation(
                                "cannot set project password".to_owned(),
                            ),
                        ),
                    }
                } else {
                    Ok(())
                }
            },
        }
    }

    /// The document of a file.
    pub fn get_file(&self, path: &String) -> (r: Option<&D>)
        requires
            self.wf(),
        ensures
            r is Some <==> self.documents.view().contains_key(path@),
            r matches Some(d) ==> *d == self.documents.view()[path@],
    {
        self.documents.get(path)
    }

    /// Adds (or replaces) the document of a file.
    pub fn add_file(&mut self, path: String, document: D)
        requires
            old(self).wf(),
        ensures
            final(self).wf(),
            final(self).documents.view() == old(self).documents.view().insert(path@, document),
            final(self).allowed_users == old(self).allowed_users,
            final(self).requests == old(self).requests,
    {
        self.documents.insert(path, document);
    }

    /// Removes a file and hands back its document.
    pub fn rm_file(&mut self, path: &String) -> (r: Option<D>)
        requires
            old(self).wf(),
        ensures
            final(self).wf(),
            final(self).documents.view() == old(self).documents.view().remove(path@),
            r is Some <==> old(self).documents.view().contains_key(path@),
            r matches Some(d) ==> d == old(self).documents.view()[path@],
            final(self).allowed_users == old(self).allowed_users,
            final(self).requests == old(self).requests,
    {
        self.documents.remove(path)
    }

    /// An editor creates a file: the path must be valid, the project below
    /// its file limit, and the path new.
    pub fn create_file(&mut self, access: AccessLevel, path: String, document: D) -> (r: Result<
        (),
        ServerMessageError,
    >)
        requires
            old(self).wf(),
        ensures
            final(self).wf(),
            create_outcome(*old(self), *final(self), access, path, document, r),
    {
        match access.need_editor() {
            Ok(()) => {},
            Err(e) => {
                return Err(e);
            },
        }
        if !is_valid_file_path(path.as_str()) {
            return Err(ServerMessageError::InvalidFilePath(path));
        }
        if self.documents.len() >= MAX_PROJECT_FILES {
            return Err(ServerMessageError::ProjectFileLimit);
        }
        if self.documents.contains_key(&path) {
            return Err(ServerMessageError::FileAlreadyExists(path));
        }
        self.documents.insert(path, document);
        Ok(())
    }

    /// An editor deletes a file.
    pub fn delete_file(&mut self, access: AccessLevel, path: String) -> (r: Result<
        D,
        ServerMessageError,
    >)
        requires
            old(self).wf(),
        ensures
            final(self).wf(),
            delete_outcome(*old(self), *final(self), access, path, r),
    {
        match access.need_editor() {
            Ok(()) => {},
            Err(e) => {
                return Err(e);
            },
        }
        match self.documents.remove(&path) {
            Some(d) => Ok(d),
            None => {
                assert(self.documents.view() =~= old(self).documents.view());
                Err(ServerMessageError::FileNotFound(path))
            },
        }
    }

    /// The document an editor wants to change.
    pub fn editable_file(&self, access: AccessLevel, path: String) -> (r: Result<
        &D,
        ServerMessageError,
    >)
        requires
            self.wf(),
        ensures
            access is Queue ==> r == Err::<&D, ServerMessageError>(
                ServerMessageError::NotAccessible,
            ),
            access is ReadOnly ==> r == Err::<&D, ServerMessageError>(
                ServerMessageError::ReadonlyPermission,
            ),
            access is Editor && !self.documents.view().contains_key(path@) ==> r == Err::<
                &D,
                ServerMessageError,
            >(ServerMessageError::FileNotFound(path)),
            access is Editor && self.documents.view().contains_key(path@) ==> (r matches Ok(d)
                && *d == self.documents.view()[path@]),
    {
        match access.need_editor() {
            Ok(()) => {},
            Err(e) => {
                return Err(e);
            },
        }
        match self.documents.get(&path) {
            Some(d) => Ok(d),
            None => Err(ServerMessageError::FileNotFound(path)),
        }
    }

    /// The users with access whose names are known, with their access.
    pub fn visible_users(&self, names: &UserRegistry) -> (r: StrMap<(String, AccessLevel)>)
        requires
            self.wf(),
            names.wf(),
        ensures
            r.wf(),
            forall|k: Seq<char>|
                #[trigger] r.view().contains_key(k) <==> (self.allowed_users.view().contains_key(k)
                    && names.view().contains_key(k)),
            forall|k: Seq<char>|
                #[trigger] r.view().contains_key(k) ==> r.view()[k].0@ == names.view()[k]
                    && r.view()[k].1 == self.allowed_users.view()[k],
    {
        let keys = self.allowed_users.keys();
        let mut out: StrMap<(String, AccessLevel)> = StrMap::new();
        let mut i: usize = 0;
        while i < keys.len()
            invariant
                i <= keys@.len(),
                out.wf(),
                names.wf(),
                self.wf(),
                forall|j: int| 0 <= j < keys@.len() ==> self.allowed_users.view().contains_key(
                    #[trigger] keys@[j]@,
                ),
                forall|k: Seq<char>|
                    self.allowed_users.view().contains_key(k) ==> exists|j: int|
                        0 <= j < keys@.len() && #[trigger] keys@[j]@ == k,
                forall|k: Seq<char>|
                    #[trigger] out.view().contains_key(k) <==> (exists|j: int|
                        0 <= j < i && #[trigger] keys@[j]@ == k) && names.view().contains_key(k),
                forall|k: Seq<char>|
                    #[trigger] out.view().contains_key(k) ==> out.view()[k].0@ == names.view()[k]
                        && out.view()[k].1 == self.allowed_users.view()[k],
            decreases keys@.len() - i,
        {
            let key = &keys[i];
            match names.get_username(key) {
                Some(n) => {
                    let access = *self.allowed_users.get(key).unwrap();
                    out.insert(key.clone(), (n, access));
                },
                None => {},
            }
            proof {
                assert forall|k: Seq<char>|
                    #[trigger] out.view().contains_key(k) <==> (exists|j: int|
                        0 <= j < i + 1 && #[trigger] keys@[j]@ == k) && names.view().contains_key(k) by {
                    if exists|j: int| 0 <= j < i + 1 && #[trigger] keys@[j]@ == k {
                        let j = choose|j: int| 0 <= j < i + 1 && #[trigger] keys@[j]@ == k;
                        if j < i {
                            assert(exists|j2: int| 0 <= j2 < i && #[trigger] keys@[j2]@ == k);
                        }
                    }
                    if exists|j: int| 0 <= j < i && #[trigger] keys@[j]@ == k {
                        let j = choose|j: int| 0 <= j < i && #[trigger] keys@[j]@ == k;
                        assert(0 <= j < i + 1 && keys@[j]@ == k);
                    }
                }
            }
            i = i + 1;
        }
        out
    }

    /// The pending requests with known names, shown to the owner only.
    pub fn visible_requests(&self, viewer: &String, names: &UserRegistry) -> (r: Option<
        StrMap<String>,
    >)
        requires
            self.wf(),
            names.wf(),
        ensures
            viewer@ != self.owner@ ==> r is None,
            viewer@ == self.owner@ ==> (r matches Some(m) && m.wf() && (forall|k: Seq<char>|
                #[trigger] m.view().contains_key(k) <==> (self.requests.view().contains_key(k)
                    && names.view().contains_key(k))) && (forall|k: Seq<char>|
                #[trigger] m.view().contains_key(k) ==> m.view()[k]@ == names.view()[k])),
    {
        if *viewer != self.owner {
            return None;
        }
        let keys = self.requests.keys();
        let mut out: StrMap<String> = StrMap::new();
        let mut i: usize = 0;
        while i < keys.len()
            invariant
                i <= keys@.len(),
                out.wf(),
                names.wf(),
                forall|j: int| 0 <= j < keys@.len() ==> self.requests.view().contains_key(
                    #[trigger] keys@[j]@,
                ),
                forall|k: Seq<char>|
                    self.requests.view().contains_key(k) ==> exists|j: int|
                        0 <= j < keys@.len() && #[trigger] keys@[j]@ == k,
                forall|k: Seq<char>|
                    #[trigger] out.view().contains_key(k) <==> (exists|j: int|
                        0 <= j < i && #[trigger] keys@[j]@ == k) && names.view().contains_key(k),
                forall|k: Seq<char>|
                    #[trigger] out.view().contains_key(k) ==> out.view()[k]@ == names.view()[k],
            decreases keys@.len() - i,
        {
            let key = &keys[i];
            match names.get_username(key) {
                Some(n) => {
                    out.insert(key.clone(), n);
                },
                None => {},
            }
            proof {
                assert forall|k: Seq<char>|
                    #[trigger] out.view().contains_key(k) <==> (exists|j: int|
                        0 <= j < i + 1 && #[trigger] keys@[j]@ == k) && names.view().contains_key(k) by {
                    if exists|j: int| 0 <= j < i + 1 && #[trigger] keys@[j]@ == k {
                        let j = choose|j: int| 0 <= j < i + 1 && #[trigger] keys@[j]@ == k;
                        if j < i {
                            assert(exists|j2: int| 0 <= j2 < i && #[trigger] keys@[j2]@ == k);
                        }
                    }
                    if exists|j: int| 0 <= j < i && #[trigger] keys@[j]@ == k {
                        let j = choose|j: int| 0 <= j < i && #[trigger] keys@[j]@ == k;
                        assert(0 <= j < i + 1 && keys@[j]@ == k);
                    }
                }
            }
            i = i + 1;
        }
        Some(out)
    }
}

/// The file every new project starts with.
pub const MAIN_FILE: &'static str = "main.rs";

/// The program in the main file of a new project.
pub const MAIN_SOURCE: &'static str = "fn main() {\n    println!(\"Hello World\");\n}";

impl Project<DocumentState> {
    /// A new project of `owner` whose only file is the main file with the
    /// greeting program.
    pub fn with_main_file(owner: String, name: String) -> (r: Self)
        ensures
            r.wf(),
            r.owner == owner,
            r.name == name,
            r.is_public,
            r.password is None,
            r.allowed_users.view() == Map::<Seq<char>, AccessLevel>::empty(),
            r.requests.view() == Map::<Seq<char>, ()>::empty(),
            r.documents.view().dom() == set![MAIN_FILE@],
            r.documents.view()[MAIN_FILE@].wf(),
            r.documents.view()[MAIN_FILE@].text_view() == MAIN_SOURCE@,
            r.documents.view()[MAIN_FILE@].revision_view() == 0,
    {
        let mut project = Project::new(owner, name);
        let mut path: Vec<char> = Vec::new();
        push_chars(&mut path, MAIN_FILE);
        let mut text: Vec<char> = Vec::new();
        push_chars(&mut text, MAIN_SOURCE);
        let doc = DocumentState::new_with(string_from_chars(text.as_slice()));
        let ghost d = doc;
        let key = string_from_chars(path.as_slice());
        project.documents.insert(key, doc);
        assert(project.documents.view().dom() =~= set![MAIN_FILE@]);
        project
    }

    /// A copy of the project for `owner`: a new id, the fork name, the same
    /// visibility, each file with the same text but no history, and no
    /// users, requests or password.
    pub fn fork(&self, owner: String) -> (r: Self)
        requires
            self.wf(),
        ensures
            r.wf(),
            r.owner == owner,
            r.name@ == fork_name_spec(self.name@),
            r.is_public == self.is_public,
            r.password is None,
            r.allowed_users.view() == Map::<Seq<char>, AccessLevel>::empty(),
            r.requests.view() == Map::<Seq<char>, ()>::empty(),
            r.documents.view().dom() == self.documents.view().dom(),
            forall|k: Seq<char>|
                #[trigger] r.documents.view().contains_key(k) ==> {
                    &&& r.documents.view()[k].wf()
                    &&& r.documents.view()[k].text_view() == self.documents.view()[k].text_view()
                    &&& r.documents.view()[k].revision_view() == 0
                },
    {
        let mut forked: Project<DocumentState> = self.fork_settings(owner);
        let keys = self.documents.keys();
        let mut i: usize = 0;
        while i < keys.len()
            invariant
                i <= keys@.len(),
                self.wf(),
                forked.wf(),
                forked.owner == owner,
                forked.name@ == fork_name_spec(self.name@),
                forked.is_public == self.is_public,
                forked.password is None,
                forked.allowed_users.view() == Map::<Seq<char>, AccessLevel>::empty(),
                forked.requests.view() == Map::<Seq<char>, ()>::empty(),
                forall|j: int|
                    0 <= j < keys@.len() ==> self.documents.view().contains_key(#[trigger] keys@[j]@),
                forall|k: Seq<char>|
                    self.documents.view().contains_key(k) ==> exists|j: int|
                        0 <= j < keys@.len() && #[trigger] keys@[j]@ == k,
                forall|k: Seq<char>|
                    #[trigger] forked.documents.view().contains_key(k) <==> exists|j: int|
                        0 <= j < i && #[trigger] keys@[j]@ == k,
                forall|k: Seq<char>|
                    #[trigger] forked.documents.view().contains_key(k) ==> {
                        &&& forked.documents.view()[k].wf()
                        &&& forked.documents.view()[k].text_view()
                            == self.documents.view()[k].text_view()
                        &&& forked.documents.view()[k].revision_view() == 0
                    },
            decreases keys@.len() - i,
        {
            let key = &keys[i];
            let doc = self.documents.get(key).unwrap().fork();
            forked.documents.insert(key.clone(), doc);
            proof {
                assert forall|k: Seq<char>|
                    #[trigger] forked.documents.view().contains_key(k) <==> exists|j: int|
                        0 <= j < i + 1 && #[trigger] keys@[j]@ == k by {
                    if exists|j: int| 0 <= j < i + 1 && #[trigger] keys@[j]@ == k {
                        let j = choose|j: int| 0 <= j < i + 1 && #[trigger] keys@[j]@ == k;
                        if j < i {
                            assert(exists|j2: int| 0 <= j2 < i && #[trigger] keys@[j2]@ == k);
                        }
                    }
                    if exists|j: int| 0 <= j < i && #[trigger] keys@[j]@ == k {
                        let j = choose|j: int| 0 <= j < i && #[trigger] keys@[j]@ == k;
                        assert(0 <= j < i + 1 && keys@[j]@ == k);
                    }
                }
            }
            i = i + 1;
        }
        proof {
            assert forall|k: Seq<char>| self.documents.view().contains_key(k) implies #[trigger] forked.documents.view().contains_key(k) by {
                assert(exists|j: int| 0 <= j < keys@.len() && #[trigger] keys@[j]@ == k);
            }
            assert(forked.documents.view().dom() =~= self.documents.view().dom());
        }
        forked
    }
}

/// What `join_project` does: a user with access keeps it; on a private
/// project everyone else waits in the queue; on a public one anyone else
/// becomes a reader, provided they give the password when there is one.
pub open spec fn join_outcome<D>(
    old: Project<D>,
    new: Project<D>,
    user_id: Seq<char>,
    password: Option<String>,
    r: Result<AccessLevel, HttpErrors>,
) -> bool {
    if old.allowed_users.view().contains_key(user_id) {
        r == Ok::<AccessLevel, HttpErrors>(old.allowed_users.view()[user_id]) && new == old
    } else if !old.is_public {
        r == Ok::<AccessLevel, HttpErrors>(AccessLevel::Queue) && new == old
    } else if old.password matches Some(h) && !password_accepted(password, h@) {
        r == Err::<AccessLevel, HttpErrors>(HttpErrors::InvalidPassword) && new == old
    } else {
        &&& r == Ok::<AccessLevel, HttpErrors>(AccessLevel::ReadOnly)
        &&& new.allowed_users.view() == old.allowed_users.view().insert(
            user_id,
            AccessLevel::ReadOnly,
        )
        &&& new.requests.view() == old.requests.view().remove(user_id)
        &&& new.password == old.password
        &&& new.is_public == old.is_public
    }
}

/// A password the owner sets on a public project lets in whoever gives it:
/// after the owner's configuration succeeds, a user without access who
/// joins with that password becomes a reader.
pub proof fn owner_password_admits_readers<D>(
    before: Project<D>,
    configured: Project<D>,
    joined: Project<D>,
    password: String,
    user: Seq<char>,
    r: Result<AccessLevel, HttpErrors>,
)
    requires
        config_outcome(before, configured, before.owner@, None, None, Some(password), Ok(())),
        configured.is_public,
        password@.len() > 0,
        encode_utf8(password@).len() <= MAX_PROJECT_PASSWORD_BYTES,
        !configured.allowed_users.view().contains_key(user),
        join_outcome(configured, joined, user, Some(password), r),
    ensures
        r == Ok::<AccessLevel, HttpErrors>(AccessLevel::ReadOnly),
        joined.allowed_users.view()[user] == AccessLevel::ReadOnly,
{
}

/// Without the password, nobody new gets into a public project that has
/// one, and the project stays as it was.
pub proof fn wrong_password_is_refused<D>(
    before: Project<D>,
    after: Project<D>,
    user: Seq<char>,
    password: Option<String>,
    r: Result<AccessLevel, HttpErrors>,
)
    requires
        join_outcome(before, after, user, password, r),
        before.is_public,
        !before.allowed_users.view().contains_key(user),
        before.password matches Some(h) && !password_accepted(password, h@),
    ensures
        r == Err::<AccessLevel, HttpErrors>(HttpErrors::InvalidPassword),
        after == before,
{
}

/// Creating files never takes a project beyond `MAX_PROJECT_FILES` files.
pub proof fn file_limit_is_kept<D>(
    old: Project<D>,
    new: Project<D>,
    access: AccessLevel,
    path: String,
    document: D,
    r: Result<(), ServerMessageError>,
)
    requires
        create_outcome(old, new, access, path, document, r),
        old.documents.view().dom().finite(),
        old.documents.view().dom().len() <= MAX_PROJECT_FILES,
    ensures
        new.documents.view().dom().len() <= MAX_PROJECT_FILES,
{
    if r is Ok {
        assert(new.documents.view().dom() =~= old.documents.view().dom().insert(path@));
    }
}

/// What `permit_access_by` does: only the owner may grant access.
pub open spec fn permit_outcome<D>(
    old: Project<D>,
    new: Project<D>,
    requester: Seq<char>,
    user_id: Seq<char>,
    access: AccessLevel,
    r: Result<(), ServerMessageError>,
) -> bool {
    if requester != old.owner@ {
        r == Err::<(), ServerMessageError>(ServerMessageError::NotOwner) && new == old
    } else {
        &&& r is Ok
        &&& new.requests.view() == old.requests.view().remove(user_id)
        &&& new.allowed_users.view() == old.allowed_users.view().insert(user_id, access)
        &&& new.documents.view() == old.documents.view()
        &&& new.password == old.password
        &&& new.is_public == old.is_public
        &&& new.owner == old.owner
        &&& new.name == old.name
    }
}

/// What `apply_config` does: only the owner may change the settings; the
/// name and the visibility change first, then the password is removed
/// (empty), refused (too long), kept (private project) or replaced.
pub open spec fn config_outcome<D>(
    old: Project<D>,
    new: Project<D>,
    requester: Seq<char>,
    name: Option<String>,
    is_public: Option<bool>,
    password: Option<String>,
    r: Result<(), ServerMessageError>,
) -> bool {
    if requester != old.owner@ {
        r == Err::<(), ServerMessageError>(ServerMessageError::NotOwner) && new == old
    } else {
        &&& new.name == (match name {
            Some(n) => n,
            None => old.name,
        })
        &&& new.is_public == (match is_public {
            Some(b) => b,
            None => old.is_public,
        })
        &&& new.allowed_users == old.allowed_users
        &&& new.requests == old.requests
        &&& new.documents == old.documents
        &&& new.owner == old.owner
        &&& new.id == old.id
        &&& match password {
            None => r is Ok && new.password == old.password,
            Some(p) => if p@.len() == 0 {
                r is Ok && new.password is None
            } else if encode_utf8(p@).len() > MAX_PROJECT_PASSWORD_BYTES {
                r == Err::<(), ServerMessageError>(ServerMessageError::PasswordTooLong)
                    && new.password == old.password
            } else if !new.is_public {
                r is Ok && new.password == old.password
            } else {
                &&& r is Ok
                &&& new.password matches Some(h) && password_verifies(p@, h@)
                    && argon2_default_prefix().is_prefix_of(h@)
            },
        }
    }
}

/// What `create_file` does: an editor adds a new file at a valid path while
/// the project is below its file limit; otherwise the first failed check is
/// reported and nothing changes.
pub open spec fn create_outcome<D>(
    old: Project<D>,
    new: Project<D>,
    access: AccessLevel,
    path: String,
    document: D,
    r: Result<(), ServerMessageError>,
) -> bool {
    &&& new.allowed_users == old.allowed_users
    &&& new.requests == old.requests
    &&& new.owner == old.owner
    &&& new.name == old.name
    &&& new.is_public == old.is_public
    &&& new.password == old.password
    &&& if access is Queue {
        r == Err::<(), ServerMessageError>(ServerMessageError::NotAccessible)
            && new.documents.view() == old.documents.view()
    } else if access is ReadOnly {
        r == Err::<(), ServerMessageError>(ServerMessageError::ReadonlyPermission)
            && new.documents.view() == old.documents.view()
    } else if !valid_file_path(path@) {
        r == Err::<(), ServerMessageError>(ServerMessageError::InvalidFilePath(path))
            && new.documents.view() == old.documents.view()
    } else if old.documents.view().dom().len() >= MAX_PROJECT_FILES {
        r == Err::<(), ServerMessageError>(ServerMessageError::ProjectFileLimit)
            && new.documents.view() == old.documents.view()
    } else if old.documents.view().contains_key(path@) {
        r == Err::<(), ServerMessageError>(ServerMessageError::FileAlreadyExists(path))
            && new.documents.view() == old.documents.view()
    } else {
        r is Ok && new.documents.view() == old.documents.view().insert(path@, document)
    }
}

/// What `delete_file` does: an editor removes an existing file and gets its
/// document back; otherwise the first failed check is reported and nothing
/// changes.
pub open spec fn delete_outcome<D>(
    old: Project<D>,
    new: Project<D>,
    access: AccessLevel,
    path: String,
    r: Result<D, ServerMessageError>,
) -> bool {
    &&& new.allowed_users == old.allowed_users
    &&& new.requests == old.requests
    &&& new.owner == old.owner
    &&& new.name == old.name
    &&& new.is_public == old.is_public
    &&& new.password == old.password
    &&& if access is Queue {
        r == Err::<D, ServerMessageError>(ServerMessageError::NotAccessible)
            && new.documents.view() == old.documents.view()
    } else if access is ReadOnly {
        r == Err::<D, ServerMessageError>(ServerMessageError::ReadonlyPermission)
            && new.documents.view() == old.documents.view()
    } else if !old.documents.view().contains_key(path@) {
        r == Err::<D, ServerMessageError>(ServerMessageError::FileNotFound(path))
            && new.documents.view() == old.documents.view()
    } else {
        r == Ok::<D, ServerMessageError>(old.documents.view()[path@])
            && new.documents.view() == old.documents.view().remove(path@)
    }
}

} // verus!
