//! The configuration capability: the kinds of configuration store, the
//! table of opened stores, and the reading of a user secret out of the
//! application's configuration file.

use vstd::prelude::*;
use vstd::string::*;
use vstd::slice::slice_to_vec;
use std::sync::Arc;
use crate::resource::{missing_key_message, new_resource_descriptor, parse_uuid, uuid_accepts, StateTable};

verus! {

/// Errors of the configuration capability.
#[derive(Debug)]
pub enum Error {
    ErrorWithDescription(String),
}

/// The kinds of configuration store.
#[derive(Debug, Clone, Copy, PartialEq, Eq, Structural)]
pub enum ConfigType {
    /// Configurations the user writes in plain text at run time.
    Local,
    /// Configurations the user stores, encrypted, in the configuration file.
    UserSecrets,
}

impl Default for ConfigType {
    fn default() -> (r: ConfigType)
        ensures
            r == ConfigType::Local,
    {
        ConfigType::Local
    }
}

impl ConfigType {
    /// A shared handle on a configuration kind.
    pub fn new(what: ConfigType) -> (r: Option<Arc<ConfigType>>)
        ensures
            r matches Some(a) && *a == what,
    {
        Some(Arc::new(what))
    }
}

/// The kind of store a name opens: `usersecrets` or `local`.
pub open spec fn config_type_named(name: Seq<char>) -> Option<ConfigType> {
    if name == "usersecrets"@ {
        Some(ConfigType::UserSecrets)
    } else if name == "local"@ {
        Some(ConfigType::Local)
    } else {
        None
    }
}

/// The message of a store name that names no kind of store.
pub open spec fn unknown_config_message() -> Seq<char> {
    "failed to match config name to any known service implementations"@
}

/// The message of a store descriptor that is not a UUID.
pub open spec fn bad_descriptor_message() -> Seq<char> {
    "failed to parse resource descriptor"@
}

/// What a store descriptor selects: an error where it is not a UUID or
/// names no opened store, and else the kind of that store.
pub open spec fn descriptor_outcome(stores: Map<Seq<char>, ConfigType>, rd: Seq<char>) -> Result<
    ConfigType,
    Seq<char>,
> {
    if !uuid_accepts(rd) {
        Err(bad_descriptor_message())
    } else if !stores.contains_key(rd) {
        Err(missing_key_message(rd))
    } else {
        Ok(stores[rd])
    }
}

/// A request the capability hands to the configuration file: read the
/// value of a user secret.
#[derive(Debug)]
pub struct UserSecretRead {
    pub key: String,
}

/// A request the capability hands to the configuration file: store a user
/// secret.
#[derive(Debug)]
pub struct UserSecretWrite {
    pub key: String,
    pub value: Vec<u8>,
}

/// The configuration capability: the kind of the store opened last, and
/// the kind of every opened store, by descriptor.
pub struct Configs {
    inner: Option<Arc<ConfigType>>,
    host_state: StateTable<ConfigType>,
}

impl Configs {
    /// The kind of the store opened last.
    pub closed spec fn current(&self) -> Option<ConfigType> {
        match self.inner {
            Some(a) => Some(*a),
            None => None,
        }
    }

    /// The kind of each opened store, by descriptor.
    pub closed spec fn stores(&self) -> Map<Seq<char>, ConfigType> {
        self.host_state.view()
    }

    /// Whether the table of stores is well formed.
    pub closed spec fn wf(&self) -> bool {
        self.host_state.wf()
    }

    /// The capability before any store is opened.
    pub fn new() -> (r: Configs)
        ensures
            r.wf(),
            r.current() is None,
            r.stores() == Map::<Seq<char>, ConfigType>::empty(),
    {
        Configs { inner: None, host_state: StateTable::new() }
    }

    /// Opens a store of the kind `name` names, under a fresh descriptor.
    /// A name that names no kind is an error and changes nothing.
    pub fn configs_open(&mut self, name: &str) -> (r: Result<String, Error>)
        requires
            old(self).wf(),
        ensures
            final(self).wf(),
            match config_type_named(name@) {
                Some(t) => r matches Ok(rd) && uuid_accepts(rd@) && final(self).current() == Some(t)
                    && final(self).stores() == old(self).stores().insert(rd@, t),
                None => r matches Err(Error::ErrorWithDescription(m)) && m@
                    == unknown_config_message() && final(self).current() == old(self).current()
                    && final(self).stores() == old(self).stores(),
            },
    {
        proof {
            reveal_strlit("usersecrets");
            reveal_strlit("local");
        }
        let n = String::from_str(name);
        let kind = if n == String::from_str("usersecrets") {
            ConfigType::UserSecrets
        } else if n == String::from_str("local") {
            ConfigType::Local
        } else {
            return Err(
                Error::ErrorWithDescription(
                    String::from_str(
                        "failed to match config name to any known service implementations",
                    ),
                ),
            );
        };
        self.inner = ConfigType::new(kind);
        let rd = new_resource_descriptor();
        self.host_state.set(rd.clone(), kind);
        Ok(rd)
    }

    fn store_kind(&self, self_: &str) -> (r: Result<ConfigType, Error>)
        requires
            self.wf(),
        ensures
            match descriptor_outcome(self.stores(), self_@) {
                Ok(t) => r == Ok::<ConfigType, Error>(t),
                Err(msg) => (r matches Err(Error::ErrorWithDescription(m)) && m@ == msg),
            },
    {
        if !parse_uuid(self_) {
            return Err(
                Error::ErrorWithDescription(String::from_str("failed to parse resource descriptor")),
            );
        }
        match self.host_state.get(self_) {
            Ok(t) => Ok(*t),
            Err(e) => Err(Error::ErrorWithDescription(e.message)),
        }
    }

    /// Reads `key` from the store `self_`: a descriptor that is not a UUID,
    /// or that names no opened store, is an error; a user-secrets store
    /// reads the secret from the configuration file. Reading from a local
    /// store is not implemented.
    pub fn configs_get(&self, self_: &str, key: &str) -> (r: Result<UserSecretRead, Error>)
        requires
            self.wf(),
            self.stores().contains_key(self_@) ==> self.stores()[self_@] != ConfigType::Local,
        ensures
            match descriptor_outcome(self.stores(), self_@) {
                Ok(_) => (r matches Ok(req) && req.key@ == key@),
                Err(msg) => (r matches Err(Error::ErrorWithDescription(m)) && m@ == msg),
            },
    {
        match self.store_kind(self_) {
            Ok(ConfigType::UserSecrets) => Ok(UserSecretRead { key: String::from_str(key) }),
            Ok(ConfigType::Local) => vstd::pervasive::unreached(),
            Err(e) => Err(e),
        }
    }

    /// Writes `value` under `key` in the store `self_`, with the same
    /// errors as `configs_get`. Writing to a local store is not
    /// implemented.
    pub fn configs_set(&self, self_: &str, key: &str, value: &[u8]) -> (r: Result<
        UserSecretWrite,
        Error,
    >)
        requires
            self.wf(),
            self.stores().contains_key(self_@) ==> self.stores()[self_@] != ConfigType::Local,
        ensures
            match descriptor_outcome(self.stores(), self_@) {
                Ok(_) => (r matches Ok(req) && req.key@ == key@ && req.value@ == value@),
                Err(msg) => (r matches Err(Error::ErrorWithDescription(m)) && m@ == msg),
            },
    {
        match self.store_kind(self_) {
            Ok(ConfigType::UserSecrets) => Ok(
                UserSecretWrite { key: String::from_str(key), value: slice_to_vec(value) },
            ),
            Ok(ConfigType::Local) => vstd::pervasive::unreached(),
            Err(e) => Err(e),
        }
    }
}

/// The plaintext that `short_crypt` decrypts from the URL component
/// `component` with the key `key`, or `None` where it refuses it.
pub uninterp spec fn url_component_plaintext(key: Seq<char>, component: Seq<char>) -> Option<
    Seq<u8>,
>;

/// The message `short_crypt` gives for a URL component it cannot decrypt.
pub open spec fn incorrect_component_message() -> Seq<char> {
    "The URL component is incorrect."@
}

/// Decrypts a URL component with a key
/// (`short_crypt::ShortCrypt::new(key).decrypt_url_component(component)`).
/// The claim is that the outcome is a function of the key and the
/// component, named `url_component_plaintext`, and that every refusal
/// carries the one message the crate's source gives for all of them.
#[verifier::external_body]
fn decrypt_url_component(key: &str, component: &str) -> (r: Result<Vec<u8>, String>)
    ensures
        match r {
            Ok(v) => url_component_plaintext(key@, component@) == Some(v@),
            Err(m) => url_component_plaintext(key@, component@) is None && m@
                == incorrect_component_message(),
        },
{
    match short_crypt::ShortCrypt::new(key).decrypt_url_component(component) {
        Ok(v) => Ok(v),
        Err(m) => Err(m.to_string()),
    }
}

/// The URL component `short_crypt` encrypts `data` into with the key `key`.
pub uninterp spec fn url_component_cipher(key: Seq<char>, data: Seq<u8>) -> Seq<char>;

/// Encrypts `data` with a key into a URL component
/// (`short_crypt::ShortCrypt::new(key).encrypt_to_url_component(data)`).
/// The claim is that the encryption is deterministic, as the crate
/// documents it, named `url_component_cipher`, and that decrypting the
/// component with the same key gives `data` back, as the crate documents.
#[verifier::external_body]
fn encrypt_url_component(key: &str, data: &[u8]) -> (r: String)
    ensures
        r@ == url_component_cipher(key@, data@),
        url_component_plaintext(key@, r@) == Some(data@),
{
    short_crypt::ShortCrypt::new(key).encrypt_to_url_component(data)
}

/// The secrets of `secrets` other than those named `key`, in order.
pub open spec fn without_name(secrets: Seq<(String, String)>, key: Seq<char>) -> Seq<(String, String)>
    decreases secrets.len(),
{
    if secrets.len() == 0 {
        secrets
    } else if secrets.last().0@ == key {
        without_name(secrets.drop_last(), key)
    } else {
        without_name(secrets.drop_last(), key).push(secrets.last())
    }
}

proof fn lemma_without_name_free(secrets: Seq<(String, String)>, key: Seq<char>)
    ensures
        forall|j: int|
            0 <= j < without_name(secrets, key).len() ==> (#[trigger] without_name(secrets, key)[j]).0@
                != key,
    decreases secrets.len(),
{
    if secrets.len() > 0 {
        let d = secrets.drop_last();
        lemma_without_name_free(d, key);
        let w = without_name(d, key);
        if secrets.last().0@ != key {
            assert forall|j: int| 0 <= j < w.push(secrets.last()).len() implies (#[trigger] w.push(
                secrets.last(),
            )[j]).0@ != key by {
                if j < w.len() {
                    assert(w.push(secrets.last())[j] == w[j]);
                }
            }
        }
    }
}

proof fn lemma_without_name_keeps(secrets: Seq<(String, String)>, key: Seq<char>)
    ensures
        forall|j: int|
            0 <= j < secrets.len() && (#[trigger] secrets[j]).0@ != key ==> without_name(
                secrets,
                key,
            ).contains(secrets[j]),
    decreases secrets.len(),
{
    if secrets.len() > 0 {
        let d = secrets.drop_last();
        lemma_without_name_keeps(d, key);
        let w = without_name(d, key);
        assert forall|j: int|
            0 <= j < secrets.len() && (#[trigger] secrets[j]).0@ != key implies without_name(
                secrets,
                key,
            ).contains(secrets[j]) by {
            if j < secrets.len() - 1 {
                assert(secrets[j] == d[j]);
                assert(w.contains(d[j]));
                let i = choose|i: int| 0 <= i < w.len() && w[i] == d[j];
                if secrets.last().0@ != key {
                    assert(w.push(secrets.last())[i] == w[i]);
                }
            } else {
                assert(without_name(secrets, key) == w.push(secrets.last()));
                assert(w.push(secrets.last())[w.len() as int] == secrets.last());
            }
        }
    }
}

/// The secrets of the configuration file after the user secret `key` is
/// written as `value`: every secret of that name is dropped, and the
/// secret, encrypted with the encryption key, is added last.
pub fn usersecrets_set(
    encryption_key: &str,
    secrets: &Vec<(String, String)>,
    key: &str,
    value: &[u8],
) -> (r: Vec<(String, String)>)
    ensures
        r@.len() == without_name(secrets@, key@).len() + 1,
        r@.drop_last() == without_name(secrets@, key@),
        r@.last().0@ == key@,
        r@.last().1@ == url_component_cipher(encryption_key@, value@),
        url_component_plaintext(encryption_key@, r@.last().1@) == Some(value@),
{
    let k = String::from_str(key);
    let mut out: Vec<(String, String)> = Vec::new();
    let mut i: usize = 0;
    while i < secrets.len()
        invariant
            i <= secrets.len(),
            k@ == key@,
            out@ == without_name(secrets@.take(i as int), key@),
        decreases secrets.len() - i,
    {
        assert(secrets@.take(i + 1).drop_last() =~= secrets@.take(i as int));
        assert(secrets@.take(i + 1).last() == secrets@[i as int]);
        if !(secrets[i].0 == k) {
            out.push((secrets[i].0.clone(), secrets[i].1.clone()));
        }
        i = i + 1;
    }
    assert(secrets@.take(secrets.len() as int) =~= secrets@);
    let cipher = encrypt_url_component(encryption_key, value);
    let ghost before = out@;
    out.push((k, cipher));
    assert(out@.drop_last() =~= before);
    out
}

/// Writing the user secret `key` keeps every other secret: each secret of
/// the file whose name is not `key` is still among the secrets after the
/// write, and every secret after the write but the last one written has a
/// name other than `key`.
pub proof fn lemma_secret_write_keeps_others(
    secrets: Seq<(String, String)>,
    key: Seq<char>,
    written: Seq<(String, String)>,
)
    requires
        written.len() == without_name(secrets, key).len() + 1,
        written.drop_last() == without_name(secrets, key),
        written.last().0@ == key,
    ensures
        forall|j: int|
            0 <= j < secrets.len() && (#[trigger] secrets[j]).0@ != key ==> written.contains(
                secrets[j],
            ),
        forall|j: int| 0 <= j < written.len() - 1 ==> (#[trigger] written[j]).0@ != key,
{
    lemma_without_name_keeps(secrets, key);
    lemma_without_name_free(secrets, key);
    let w = without_name(secrets, key);
    assert forall|j: int|
        0 <= j < secrets.len() && (#[trigger] secrets[j]).0@ != key implies written.contains(
            secrets[j],
        ) by {
        let i = choose|i: int| 0 <= i < w.len() && w[i] == secrets[j];
        assert(written[i] == w[i]);
    }
    assert forall|j: int| 0 <= j < written.len() - 1 implies (#[trigger] written[j]).0@ != key by {
        assert(written[j] == w[j]);
    }
}

proof fn lemma_without_name_front(secrets: Seq<(String, String)>, key: Seq<char>)
    requires
        secrets.len() > 0,
    ensures
        without_name(secrets, key) == if secrets[0].0@ == key {
            without_name(secrets.drop_first(), key)
        } else {
            seq![secrets[0]] + without_name(secrets.drop_first(), key)
        },
    decreases secrets.len(),
{
    if secrets.len() == 1 {
        assert(secrets.drop_last() =~= Seq::<(String, String)>::empty());
        assert(secrets.drop_first() =~= Seq::<(String, String)>::empty());
        assert(secrets.last() == secrets[0]);
        if secrets[0].0@ != key {
            assert(Seq::<(String, String)>::empty().push(secrets[0]) =~= seq![secrets[0]]
                + Seq::<(String, String)>::empty());
        }
    } else {
        let d = secrets.drop_last();
        lemma_without_name_front(d, key);
        assert(d[0] == secrets[0]);
        assert(secrets.drop_first().drop_last() =~= d.drop_first());
        assert(secrets.drop_first().last() == secrets.last());
        let wd = without_name(d.drop_first(), key);
        if secrets.last().0@ != key {
            if secrets[0].0@ != key {
                assert((seq![secrets[0]] + wd).push(secrets.last()) =~= seq![secrets[0]] + wd.push(
                    secrets.last(),
                ));
            }
        }
    }
}

proof fn lemma_first_secret_push(x: Seq<(String, String)>, e: (String, String), name: Seq<char>)
    requires
        e.0@ != name,
    ensures
        first_secret(x.push(e), name) == first_secret(x, name),
    decreases x.len(),
{
    let xe = x.push(e);
    if x.len() == 0 {
        assert(xe.drop_first() =~= Seq::<(String, String)>::empty());
        assert(xe[0] == e);
        assert(first_secret(xe.drop_first(), name) is None);
    } else {
        assert(xe[0] == x[0]);
        assert(xe.drop_first() =~= x.drop_first().push(e));
        lemma_first_secret_push(x.drop_first(), e, name);
        assert(first_secret(xe.drop_first(), name) == first_secret(x.drop_first(), name));
    }
}

proof fn lemma_first_secret_without(secrets: Seq<(String, String)>, key: Seq<char>, name: Seq<char>)
    requires
        name != key,
    ensures
        match first_secret(secrets, name) {
            None => first_secret(without_name(secrets, key), name) is None,
            Some(i) => first_secret(without_name(secrets, key), name) matches Some(j) && 0 <= j
                < without_name(secrets, key).len() && 0 <= i < secrets.len()
                && without_name(secrets, key)[j] == secrets[i],
        },
    decreases secrets.len(),
{
    if secrets.len() > 0 {
        lemma_without_name_front(secrets, key);
        let rest = secrets.drop_first();
        lemma_first_secret_without(rest, key, name);
        let wr = without_name(rest, key);
        if secrets[0].0@ == name {
            let w = seq![secrets[0]] + wr;
            assert(w[0] == secrets[0]);
        } else if secrets[0].0@ == key {
            match first_secret(rest, name) {
                Some(i) => {
                    assert(secrets[i + 1] == rest[i]);
                },
                None => {},
            }
        } else {
            let w = seq![secrets[0]] + wr;
            assert(w.drop_first() =~= wr);
            assert(w[0] == secrets[0]);
            match first_secret(rest, name) {
                Some(i) => {
                    let j = first_secret(wr, name)->0;
                    assert(w[j + 1] == wr[j]);
                    assert(secrets[i + 1] == rest[i]);
                },
                None => {},
            }
        }
    }
}

/// Reading any other secret after the user secret `key` is written gives
/// what it gave before: the first secret of each other name is the same
/// entry, and a name no secret had stays without one.
pub proof fn lemma_secret_write_keeps_reads(
    secrets: Seq<(String, String)>,
    key: Seq<char>,
    written: Seq<(String, String)>,
    name: Seq<char>,
)
    requires
        written.len() == without_name(secrets, key).len() + 1,
        written.drop_last() == without_name(secrets, key),
        written.last().0@ == key,
        name != key,
    ensures
        match first_secret(secrets, name) {
            None => first_secret(written, name) is None,
            Some(i) => first_secret(written, name) matches Some(j) && 0 <= j < written.len() && 0
                <= i < secrets.len() && written[j] == secrets[i],
        },
{
    lemma_first_secret_without(secrets, key, name);
    let w = without_name(secrets, key);
    assert(written =~= w.push(written.last()));
    lemma_first_secret_push(w, written.last(), name);
    match first_secret(secrets, name) {
        Some(i) => {
            let j = first_secret(w, name)->0;
            assert(written[j] == w[j]);
        },
        None => {},
    }
}

/// A user secret read after it was written gives the written value: in
/// the secrets that writing leaves, the first one of that name is the one
/// written, and its value decrypts to what was written.
pub proof fn lemma_secret_read_after_write(
    secrets: Seq<(String, String)>,
    key: Seq<char>,
    written: Seq<(String, String)>,
    encryption_key: Seq<char>,
    value: Seq<u8>,
)
    requires
        written.len() == without_name(secrets, key).len() + 1,
        written.drop_last() == without_name(secrets, key),
        written.last().0@ == key,
        url_component_plaintext(encryption_key, written.last().1@) == Some(value),
    ensures
        first_secret(written, key) == Some(written.len() - 1),
        url_component_plaintext(encryption_key, written[written.len() - 1].1@) == Some(value),
{
    lemma_without_name_free(secrets, key);
    let n = written.len() - 1;
    assert forall|j: int| 0 <= j < n implies (#[trigger] written[j]).0@ != key by {
        assert(written[j] == written.drop_last()[j]);
    }
    lemma_first_secret_step(written, key, n);
    let tail = written.subrange(n, written.len() as int);
    assert(tail.len() == 1 && tail[0] == written[n]);
    assert(first_secret(tail, key) == Some(0int));
}

/// The message of a read of user secrets that were never set up.
pub open spec fn uninitialized_message() -> Seq<char> {
    "failed because user secrets has never been initialized"@
}

/// The message of a configuration file without secrets.
pub open spec fn no_secrets_message() -> Seq<char> {
    "failed because toml file has no secrets"@
}

/// The message of a secret the configuration file does not hold.
pub open spec fn secret_missing_message() -> Seq<char> {
    "failed because this secret isn't encrypted in the toml file"@
}

/// The position of the first secret named `key`.
pub open spec fn first_secret(secrets: Seq<(String, String)>, key: Seq<char>) -> Option<int>
    decreases secrets.len(),
{
    if secrets.len() == 0 {
        None
    } else if secrets[0].0@ == key {
        Some(0)
    } else {
        match first_secret(secrets.drop_first(), key) {
            Some(i) => Some(i + 1),
            None => None,
        }
    }
}

proof fn lemma_first_secret_step(secrets: Seq<(String, String)>, key: Seq<char>, i: int)
    requires
        0 <= i < secrets.len(),
        forall|j: int| 0 <= j < i ==> (#[trigger] secrets[j]).0@ != key,
    ensures
        match first_secret(secrets.subrange(i, secrets.len() as int), key) {
            Some(p) => first_secret(secrets, key) == Some(p + i),
            None => first_secret(secrets, key) is None,
        },
    decreases i,
{
    if i > 0 {
        let rest = secrets.drop_first();
        assert forall|j: int| 0 <= j < i - 1 implies (#[trigger] rest[j]).0@ != key by {
            assert(rest[j] == secrets[j + 1]);
        }
        lemma_first_secret_step(rest, key, i - 1);
        assert(rest.subrange(i - 1, rest.len() as int) =~= secrets.subrange(i, secrets.len() as int));
    } else {
        assert(secrets.subrange(0, secrets.len() as int) =~= secrets);
        match first_secret(secrets, key) {
            Some(p) => {},
            None => {},
        }
    }
}

proof fn lemma_first_secret_none(secrets: Seq<(String, String)>, key: Seq<char>)
    requires
        forall|j: int| 0 <= j < secrets.len() ==> (#[trigger] secrets[j]).0@ != key,
    ensures
        first_secret(secrets, key) is None,
    decreases secrets.len(),
{
    if secrets.len() > 0 {
        let rest = secrets.drop_first();
        assert forall|j: int| 0 <= j < rest.len() implies (#[trigger] rest[j]).0@ != key by {
            assert(rest[j] == secrets[j + 1]);
        }
        lemma_first_secret_none(rest, key);
    }
}

fn position_of(secrets: &Vec<(String, String)>, key: &str) -> (r: Option<usize>)
    ensures
        match r {
            Some(i) => first_secret(secrets@, key@) == Some(i as int) && i < secrets.len(),
            None => first_secret(secrets@, key@) is None,
        },
{
    let k = String::from_str(key);
    let mut i: usize = 0;
    while i < secrets.len()
        invariant
            i <= secrets.len(),
            k@ == key@,
            forall|j: int| 0 <= j < i ==> (#[trigger] secrets@[j]).0@ != key@,
        decreases secrets.len() - i,
    {
        if secrets[i].0 == k {
            proof {
                lemma_first_secret_step(secrets@, key@, i as int);
                let tail = secrets@.subrange(i as int, secrets@.len() as int);
                assert(tail[0] == secrets@[i as int]);
            }
            return Some(i);
        }
        i = i + 1;
    }
    proof {
        lemma_first_secret_none(secrets@, key@);
    }
    None
}

/// What reading the user secret `key` gives, from what the host read: the
/// encryption key of the user secrets (absent where they were never set
/// up), and the secrets of the configuration file as (name, encrypted
/// value) pairs, or the error that reading the file gave. The first secret
/// named `key` is decrypted with the encryption key.
pub fn usersecrets_get(
    encryption_key: Option<String>,
    secrets: Result<Option<Vec<(String, String)>>, String>,
    key: &str,
) -> (r: Result<Vec<u8>, String>)
    ensures
        match encryption_key {
            None => r matches Err(m) && m@ == uninitialized_message(),
            Some(ek) => match secrets {
                Err(e) => r matches Err(m) && m@ == e@,
                Ok(None) => r matches Err(m) && m@ == no_secrets_message(),
                Ok(Some(list)) => match first_secret(list@, key@) {
                    None => r matches Err(m) && m@ == secret_missing_message(),
                    Some(i) => match url_component_plaintext(ek@, list@[i].1@) {
                        Some(plain) => r matches Ok(v) && v@ == plain,
                        None => r matches Err(m) && m@ == incorrect_component_message(),
                    },
                },
            },
        },
{
    let ek = match encryption_key {
        Some(s) => s,
        None => {
            return Err(
                String::from_str("failed because user secrets has never been initialized"),
            );
        },
    };
    let list = match secrets {
        Err(e) => {
            return Err(e);
        },
        Ok(None) => {
            return Err(String::from_str("failed because toml file has no secrets"));
        },
        Ok(Some(list)) => list,
    };
    match position_of(&list, key) {
        None => Err(String::from_str("failed because this secret isn't encrypted in the toml file")),
        Some(i) => decrypt_url_component(ek.as_str(), list[i].1.as_str()),
    }
}

/// The configuration providers a configuration type names.
#[derive(Debug, Clone, Copy, PartialEq, Eq, Structural)]
pub enum ConfigProvider {
    /// Configurations kept in environment variables.
    EnvVars,
    /// Configurations kept, encrypted, in the configuration file.
    UserSecrets,
}

/// The provider a configuration type names: `envvars` or `usersecrets`.
pub open spec fn provider_named(name: Seq<char>) -> Option<ConfigProvider> {
    if name == "envvars"@ {
        Some(ConfigProvider::EnvVars)
    } else if name == "usersecrets"@ {
        Some(ConfigProvider::UserSecrets)
    } else {
        None
    }
}

impl ConfigProvider {
    /// The provider a configuration type names, if it names one.
    pub fn from_name(name: &str) -> (r: Option<ConfigProvider>)
        ensures
            r == provider_named(name@),
    {
        proof {
            reveal_strlit("envvars");
            reveal_strlit("usersecrets");
        }
        let n = String::from_str(name);
        if n == String::from_str("envvars") {
            Some(ConfigProvider::EnvVars)
        } else if n == String::from_str("usersecrets") {
            Some(ConfigProvider::UserSecrets)
        } else {
            None
        }
    }
}

/// Where a configuration value is read from.
#[derive(Debug)]
pub enum ConfigSource {
    /// The environment variable of that name.
    EnvVar { name: String },
    /// The user secret `key` of the configuration file at `toml_file_path`.
    UserSecret { key: String, toml_file_path: String },
}

/// Where a configuration value is written to.
#[derive(Debug)]
pub enum ConfigTarget {
    /// The environment variable of that name.
    EnvVar { name: String, value: Vec<u8> },
    /// The user secret `key` of the configuration file at `toml_file_path`.
    UserSecret { key: String, value: Vec<u8>, toml_file_path: String },
}

/// Where the configuration `key` of the configuration type `config_type`
/// is read from: the environment variable `key`, or the user secret `key`
/// of the configuration file.
pub fn get(config_type: &str, key: &str, toml_file_path: &str) -> (r: ConfigSource)
    requires
        provider_named(config_type@) is Some,
    ensures
        match provider_named(config_type@) {
            Some(ConfigProvider::EnvVars) => r matches ConfigSource::EnvVar { name } && name@
                == key@,
            Some(ConfigProvider::UserSecrets) => r matches ConfigSource::UserSecret {
                key: k,
                toml_file_path: p,
            } && k@ == key@ && p@ == toml_file_path@,
            None => false,
        },
{
    match ConfigProvider::from_name(config_type) {
        Some(ConfigProvider::EnvVars) => ConfigSource::EnvVar { name: String::from_str(key) },
        Some(ConfigProvider::UserSecrets) => ConfigSource::UserSecret {
            key: String::from_str(key),
            toml_file_path: String::from_str(toml_file_path),
        },
        None => vstd::pervasive::unreached(),
    }
}

/// Where `value` is written as the configuration `key` of the configuration
/// type `config_type`.
pub fn set(config_type: &str, key: &str, value: &[u8], toml_file_path: &str) -> (r: ConfigTarget)
    requires
        provider_named(config_type@) is Some,
    ensures
        match provider_named(config_type@) {
            Some(ConfigProvider::EnvVars) => r matches ConfigTarget::EnvVar { name, value: v }
                && name@ == key@ && v@ == value@,
            Some(ConfigProvider::UserSecrets) => r matches ConfigTarget::UserSecret {
                key: k,
                value: v,
                toml_file_path: p,
            } && k@ == key@ && v@ == value@ && p@ == toml_file_path@,
            None => false,
        },
{
    match ConfigProvider::from_name(config_type) {
        Some(ConfigProvider::EnvVars) => ConfigTarget::EnvVar {
            name: String::from_str(key),
            value: slice_to_vec(value),
        },
        Some(ConfigProvider::UserSecrets) => ConfigTarget::UserSecret {
            key: String::from_str(key),
            value: slice_to_vec(value),
            toml_file_path: String::from_str(toml_file_path),
        },
        None => vstd::pervasive::unreached(),
    }
}

/// A store that was opened under a descriptor is found again under that
/// descriptor, with the kind it was opened as.
pub proof fn lemma_opened_store_is_found(
    stores: Map<Seq<char>, ConfigType>,
    rd: Seq<char>,
    kind: ConfigType,
)
    requires
        uuid_accepts(rd),
    ensures
        descriptor_outcome(stores.insert(rd, kind), rd) == Ok::<ConfigType, Seq<char>>(kind),
{
}

/// Each kind of configuration store is opened by its own name: `local`
/// opens a local store and `usersecrets` a user-secrets store.
pub proof fn lemma_store_kind_names()
    ensures
        config_type_named(seq!['l', 'o', 'c', 'a', 'l']) == Some(ConfigType::Local),
        config_type_named(seq!['u', 's', 'e', 'r', 's', 'e', 'c', 'r', 'e', 't', 's']) == Some(
            ConfigType::UserSecrets,
        ),
{
    reveal_strlit("usersecrets");
    reveal_strlit("local");
    assert("local"@ =~= seq!['l', 'o', 'c', 'a', 'l']);
    assert("usersecrets"@ =~= seq!['u', 's', 'e', 'r', 's', 'e', 'c', 'r', 'e', 't', 's']);
}

} // verus!
