//! The second version of the key-value capability. Its Redis-backed store
//! keeps the keys of a container under the container's name: the key `k`
//! of container `c` is the server key `c:k`.

use vstd::prelude::*;
use vstd::string::*;
use vstd::utf8::encode_utf8;
use vstd::slice::slice_to_vec;
use crate::kv::RedisCommand;
use crate::common::{find_state, state_for, BasicState};
use crate::text::{chars_of, string_from_chars, strip_prefix, strip_prefix_chars};

verus! {

/// Errors of the key-value capability.
#[derive(Debug)]
pub enum KeyvalueError {
    UnexpectedError(String),
}

/// The implementations that can back a key-value store.
#[derive(Debug, Clone, Copy, PartialEq, Eq, Structural)]
pub enum KeyvalueImplementors {
    Filesystem,
    AzBlob,
    AwsDynamoDb,
    Redis,
}

/// The implementation a resource name of the application's configuration
/// selects; each implementation has a name with and without the `@v1`
/// release suffix.
pub open spec fn keyvalue_implementor_named(name: Seq<char>) -> Option<KeyvalueImplementors> {
    if name == "keyvalue.filesystem"@ || name == "keyvalue.filesystem@v1"@ {
        Some(KeyvalueImplementors::Filesystem)
    } else if name == "keyvalue.azblob"@ || name == "keyvalue.azblob@v1"@ {
        Some(KeyvalueImplementors::AzBlob)
    } else if name == "keyvalue.awsdynamodb"@ || name == "keyvalue.awsdynamodb@v1"@ {
        Some(KeyvalueImplementors::AwsDynamoDb)
    } else if name == "keyvalue.redis"@ || name == "keyvalue.redis@v1"@ {
        Some(KeyvalueImplementors::Redis)
    } else {
        None
    }
}

fn names_either(n: &String, a: &str, b: &str) -> (r: bool)
    ensures
        r == (n@ == a@ || n@ == b@),
{
    *n == String::from_str(a) || *n == String::from_str(b)
}

impl KeyvalueImplementors {
    /// The implementation selected by a resource name, if it names one.
    pub fn from_name(name: &str) -> (r: Option<KeyvalueImplementors>)
        ensures
            r == keyvalue_implementor_named(name@),
    {
        proof {
            reveal_strlit("keyvalue.filesystem");
            reveal_strlit("keyvalue.filesystem@v1");
            reveal_strlit("keyvalue.azblob");
            reveal_strlit("keyvalue.azblob@v1");
            reveal_strlit("keyvalue.awsdynamodb");
            reveal_strlit("keyvalue.awsdynamodb@v1");
            reveal_strlit("keyvalue.redis");
            reveal_strlit("keyvalue.redis@v1");
        }
        let n = String::from_str(name);
        if names_either(&n, "keyvalue.filesystem", "keyvalue.filesystem@v1") {
            Some(KeyvalueImplementors::Filesystem)
        } else if names_either(&n, "keyvalue.azblob", "keyvalue.azblob@v1") {
            Some(KeyvalueImplementors::AzBlob)
        } else if names_either(&n, "keyvalue.awsdynamodb", "keyvalue.awsdynamodb@v1") {
            Some(KeyvalueImplementors::AwsDynamoDb)
        } else if names_either(&n, "keyvalue.redis", "keyvalue.redis@v1") {
            Some(KeyvalueImplementors::Redis)
        } else {
            None
        }
    }
}

/// An opened store: the implementation that backs it and the name it was
/// opened under.
#[derive(Debug)]
pub struct KeyvalueInner {
    pub keyvalue_implementor: KeyvalueImplementors,
    pub name: String,
}

/// The key-value capability: the default implementor and the state
/// configured for each store.
#[derive(Debug)]
pub struct Keyvalue {
    implementor: String,
    capability_store: Vec<(String, BasicState)>,
}

impl Keyvalue {
    /// The default implementor name.
    pub closed spec fn implementor_name(&self) -> Seq<char> {
        self.implementor@
    }

    /// The configured states, by name.
    pub closed spec fn states(&self) -> Seq<(String, BasicState)> {
        self.capability_store@
    }

    /// The capability with a default implementor and configured states.
    pub fn new(implementor: String, keyvalue_store: Vec<(String, BasicState)>) -> (r: Keyvalue)
        ensures
            r.implementor_name() == implementor@,
            r.states() == keyvalue_store@,
    {
        Keyvalue { implementor, capability_store: keyvalue_store }
    }

    /// Whether a store can be opened under `name`: a state is configured
    /// for it, and that state names a known implementation.
    pub open spec fn can_open(&self, name: Seq<char>) -> bool {
        &&& state_for(self.states(), name, self.implementor_name()) is Some
        &&& keyvalue_implementor_named(
            state_for(self.states(), name, self.implementor_name())->0.implementor@,
        ) is Some
    }

    /// Opens the store `name` with the implementation its state names: the
    /// state configured under `name`, or else under the default implementor.
    pub fn keyvalue_open(&self, name: &str) -> (r: KeyvalueInner)
        requires
            self.can_open(name@),
        ensures
            Some(r.keyvalue_implementor) == keyvalue_implementor_named(
                state_for(self.states(), name@, self.implementor_name())->0.implementor@,
            ),
            r.name@ == name@,
    {
        let state = match find_state(&self.capability_store, name, self.implementor.as_str()) {
            Some(s) => s,
            None => vstd::pervasive::unreached(),
        };
        match KeyvalueImplementors::from_name(state.implementor.as_str()) {
            Some(k) => KeyvalueInner { keyvalue_implementor: k, name: String::from_str(name) },
            None => vstd::pervasive::unreached(),
        }
    }
}

/// The prefix of the server keys of container `c`: its name and a colon.
pub open spec fn namespace_of(c: Seq<char>) -> Seq<char> {
    c + seq![':']
}

/// The server key of key `k` in container `c`.
pub open spec fn namespaced(c: Seq<char>, k: Seq<char>) -> Seq<char> {
    namespace_of(c) + k
}

/// The pattern of all server keys of container `c`.
pub open spec fn keys_pattern(c: Seq<char>) -> Seq<char> {
    namespace_of(c) + seq!['*']
}

/// A server key listed by the server, with the container's prefix taken
/// off its front.
pub open spec fn listed_key(c: Seq<char>, server_key: Seq<char>) -> Seq<char> {
    strip_prefix(server_key, namespace_of(c))
}

/// A container of a Redis-backed store.
#[derive(Debug)]
pub struct RedisImplementor {
    container_name: String,
}

impl RedisImplementor {
    /// The name of the container.
    pub closed spec fn container(&self) -> Seq<char> {
        self.container_name@
    }

    /// The container named `name`.
    pub fn new(name: &str) -> (r: RedisImplementor)
        ensures
            r.container() == name@,
    {
        RedisImplementor { container_name: String::from_str(name) }
    }

    fn prefix(&self) -> (r: Vec<char>)
        ensures
            r@ == namespace_of(self.container()),
    {
        let mut p = chars_of(self.container_name.as_str());
        p.push(':');
        p
    }

    /// The server key of `key` in this container.
    pub fn key_for(&self, key: &str) -> (r: String)
        ensures
            r@ == namespaced(self.container(), key@),
    {
        let mut p = self.prefix();
        let k = chars_of(key);
        let mut i: usize = 0;
        let ghost start = p@;
        while i < k.len()
            invariant
                i <= k.len(),
                p@ == start + k@.take(i as int),
            decreases k.len() - i,
        {
            p.push(k[i]);
            i = i + 1;
            assert(p@ =~= start + k@.take(i as int));
        }
        assert(k@.take(k.len() as int) =~= k@);
        string_from_chars(&p)
    }

    /// The command that reads `key`.
    pub fn get(&self, key: &str) -> (r: RedisCommand)
        ensures
            r matches RedisCommand::Get { key: k } && k@ == namespaced(self.container(), key@),
    {
        RedisCommand::Get { key: self.key_for(key) }
    }

    /// The command that writes `value` under `key`.
    pub fn set(&self, key: &str, value: &[u8]) -> (r: RedisCommand)
        ensures
            r matches RedisCommand::SetValue { key: k, value: v } && k@ == namespaced(
                self.container(),
                key@,
            ) && v@ == value@,
    {
        RedisCommand::SetValue { key: self.key_for(key), value: slice_to_vec(value) }
    }

    /// The command that deletes `key`.
    pub fn delete(&self, key: &str) -> (r: RedisCommand)
        ensures
            r matches RedisCommand::Del { key: k } && k@ == namespaced(self.container(), key@),
    {
        RedisCommand::Del { key: self.key_for(key) }
    }

    /// The command that lists the keys of this container.
    pub fn keys(&self) -> (r: RedisCommand)
        ensures
            r matches RedisCommand::Keys { pattern: p } && p@ == keys_pattern(self.container()),
    {
        let mut p = self.prefix();
        p.push('*');
        RedisCommand::Keys { pattern: string_from_chars(&p) }
    }

    /// The value a read returns given the server's reply: a missing key is
    /// answered with nothing, which is reported as an error.
    pub fn get_reply(&self, reply: Vec<u8>) -> (r: Result<Vec<u8>, KeyvalueError>)
        ensures
            reply@.len() > 0 ==> (r matches Ok(v) && v@ == reply@),
            reply@.len() == 0 ==> (r matches Err(KeyvalueError::UnexpectedError(m)) && m@
                == "key not found"@),
    {
        if reply.len() == 0 {
            return Err(KeyvalueError::UnexpectedError(String::from_str("key not found")));
        }
        Ok(reply)
    }

    /// The keys of this container, given the server keys the server listed.
    pub fn keys_reply(&self, server_keys: Vec<String>) -> (r: Vec<String>)
        ensures
            r@.len() == server_keys@.len(),
            forall|i: int|
                0 <= i < r@.len() ==> (#[trigger] r@[i])@ == listed_key(
                    self.container(),
                    server_keys@[i]@,
                ),
    {
        let p = self.prefix();
        let mut r: Vec<String> = Vec::new();
        let mut i: usize = 0;
        while i < server_keys.len()
            invariant
                i <= server_keys.len(),
                p@ == namespace_of(self.container()),
                r@.len() == i,
                forall|j: int|
                    0 <= j < i ==> (#[trigger] r@[j])@ == listed_key(
                        self.container(),
                        server_keys@[j]@,
                    ),
            decreases server_keys.len() - i,
        {
            let k = chars_of(server_keys[i].as_str());
            let stripped = strip_prefix_chars(&k, &p);
            r.push(string_from_chars(&stripped));
            i = i + 1;
        }
        r
    }
}

/// A key written to a container is listed again as the same key.
pub proof fn lemma_written_key_is_listed(c: Seq<char>, k: Seq<char>)
    ensures
        listed_key(c, namespaced(c, k)) == k,
{
    let full = namespaced(c, k);
    assert(full.take(namespace_of(c).len() as int) =~= namespace_of(c));
    assert(full.skip(namespace_of(c).len() as int) =~= k);
}

/// The message of a read of a key that a DynamoDB table holds no item for.
pub open spec fn no_value_message(key: Seq<char>) -> Seq<char> {
    "no value found for key: "@ + key
}

/// The value a read of `key` from a DynamoDB-backed store returns, given
/// the `value` attributes of the items the query found, in the order the
/// service listed them: the last item's value as bytes, or an error where
/// no item was found.
pub fn dynamodb_get_reply(key: &str, values: Vec<String>) -> (r: Result<Vec<u8>, KeyvalueError>)
    ensures
        values@.len() == 0 ==> (r matches Err(KeyvalueError::UnexpectedError(m)) && m@
            == no_value_message(key@)),
        values@.len() > 0 ==> (r matches Ok(v) && v@ == encode_utf8(values@.last()@)),
{
    let n = values.len();
    if n == 0 {
        return Err(
            KeyvalueError::UnexpectedError(String::from_str("no value found for key: ").concat(key)),
        );
    }
    let bytes = values[n - 1].as_str().as_bytes();
    Ok(slice_to_vec(bytes))
}

/// Each resource name selects its own implementation, with and without the
/// `@v1` release suffix: `keyvalue.filesystem`, `keyvalue.azblob`,
/// `keyvalue.awsdynamodb` and `keyvalue.redis` select the file system,
/// Azure Blob Storage, DynamoDB and Redis, and each `@v1` name selects what
/// the name without the suffix does.
pub proof fn lemma_keyvalue_resource_names()
    ensures
        keyvalue_implementor_named("keyvalue.filesystem"@) == Some(KeyvalueImplementors::Filesystem),
        keyvalue_implementor_named("keyvalue.azblob"@) == Some(KeyvalueImplementors::AzBlob),
        keyvalue_implementor_named("keyvalue.awsdynamodb"@) == Some(KeyvalueImplementors::AwsDynamoDb),
        keyvalue_implementor_named("keyvalue.redis"@) == Some(KeyvalueImplementors::Redis),
        keyvalue_implementor_named("keyvalue.filesystem"@ + seq!['@', 'v', '1'])
            == keyvalue_implementor_named("keyvalue.filesystem"@),
        keyvalue_implementor_named("keyvalue.azblob"@ + seq!['@', 'v', '1'])
            == keyvalue_implementor_named("keyvalue.azblob"@),
        keyvalue_implementor_named("keyvalue.awsdynamodb"@ + seq!['@', 'v', '1'])
            == keyvalue_implementor_named("keyvalue.awsdynamodb"@),
        keyvalue_implementor_named("keyvalue.redis"@ + seq!['@', 'v', '1'])
            == keyvalue_implementor_named("keyvalue.redis"@),
{
    reveal_strlit("keyvalue.filesystem");
    reveal_strlit("keyvalue.filesystem@v1");
    reveal_strlit("keyvalue.azblob");
    reveal_strlit("keyvalue.azblob@v1");
    reveal_strlit("keyvalue.awsdynamodb");
    reveal_strlit("keyvalue.awsdynamodb@v1");
    reveal_strlit("keyvalue.redis");
    reveal_strlit("keyvalue.redis@v1");
    let v1 = seq!['@', 'v', '1'];
    assert("keyvalue.filesystem@v1"@ =~= "keyvalue.filesystem"@ + v1);
    assert("keyvalue.azblob@v1"@ =~= "keyvalue.azblob"@ + v1);
    assert("keyvalue.awsdynamodb@v1"@ =~= "keyvalue.awsdynamodb"@ + v1);
    assert("keyvalue.redis@v1"@ =~= "keyvalue.redis"@ + v1);
    assert("keyvalue.filesystem"@[9] == 'f');
    assert("keyvalue.azblob"@[9] == 'a' && "keyvalue.azblob"@[10] == 'z');
    assert("keyvalue.awsdynamodb"@[9] == 'a' && "keyvalue.awsdynamodb"@[10] == 'w');
    assert("keyvalue.redis"@[9] == 'r');
    assert("keyvalue.filesystem@v1"@[9] == 'f');
    assert("keyvalue.azblob@v1"@[9] == 'a' && "keyvalue.azblob@v1"@[10] == 'z');
    assert("keyvalue.awsdynamodb@v1"@[9] == 'a' && "keyvalue.awsdynamodb@v1"@[10] == 'w');
    assert("keyvalue.redis@v1"@[9] == 'r');
}

} // verus!
