//! What goes to Kafka, and how the bridge connects to it.
use crate::config::KafkaAuthConfig;
use crate::text::{concat3, copy_of, opt_view, same_text, views};
use crate::text_map::{ascending, TextMap};
use crate::topic::str_view;
use crate::transport::pair_views;
use vstd::prelude::*;
use vstd::string::*;
use vstd::utf8::*;

verus! {

/// A record for Kafka.
#[derive(Debug, PartialEq, Eq)]
pub struct BridgeRecord {
    pub topic: String,
    pub key: String,
    pub payload: Vec<u8>,
    pub stream_path: String,
    pub next_offset: String,
}

/// What a [`BridgeRecord`] stands for.
pub ghost struct RecordView {
    pub topic: Seq<char>,
    pub key: Seq<char>,
    pub payload: Seq<u8>,
    pub stream_path: Seq<char>,
    pub next_offset: Seq<char>,
}

impl View for BridgeRecord {
    type V = RecordView;

    open spec fn view(&self) -> RecordView {
        RecordView {
            topic: self.topic@,
            key: self.key@,
            payload: self.payload@,
            stream_path: self.stream_path@,
            next_offset: self.next_offset@,
        }
    }
}

impl Clone for BridgeRecord {
    fn clone(&self) -> (r: BridgeRecord)
        ensures
            r@ == self@,
    {
        let mut payload: Vec<u8> = Vec::new();
        payload.extend_from_slice(self.payload.as_slice());
        assert(payload@ =~= self.payload@);
        BridgeRecord {
            topic: self.topic.clone(),
            key: self.key.clone(),
            payload,
            stream_path: self.stream_path.clone(),
            next_offset: self.next_offset.clone(),
        }
    }
}

impl RecordView {
    /// The headers of the record in Kafka: their names and values.
    pub open spec fn headers(self) -> Seq<(Seq<char>, Seq<u8>)> {
        seq![
            ("durable-stream-path"@, encode_utf8(self.stream_path)),
            ("durable-stream-next-offset"@, encode_utf8(self.next_offset)),
        ]
    }
}

/// The views of the names and values, in order.
pub open spec fn header_views(headers: Seq<(&'static str, Vec<u8>)>) -> Seq<(Seq<char>, Seq<u8>)> {
    headers.map_values(|header: (&'static str, Vec<u8>)| (header.0@, header.1@))
}

impl BridgeRecord {
    /// The headers of the record in Kafka: where the record comes from, and where it ends.
    pub fn headers(&self) -> (r: Vec<(&'static str, Vec<u8>)>)
        ensures
            header_views(r@) == self@.headers(),
    {
        let mut headers: Vec<(&'static str, Vec<u8>)> = Vec::new();
        headers.push(("durable-stream-path", self.stream_path.as_str().as_bytes_vec()));
        headers.push(("durable-stream-next-offset", self.next_offset.as_str().as_bytes_vec()));
        assert(header_views(headers@) =~= self@.headers());
        headers
    }
}

/// What can go wrong with Kafka.
#[derive(Debug)]
pub enum SinkError {
    CreateProducer(String),
    Deliver(String),
    MetadataFetch(String),
    MissingTopic { topic: String },
    MissingEnvVar { name: String },
    Message(String),
}

impl SinkError {
    /// The failure in words.
    pub open spec fn text(self) -> Seq<char> {
        match self {
            SinkError::CreateProducer(_) => "failed to create Kafka producer"@,
            SinkError::Deliver(_) => "failed to deliver Kafka record"@,
            SinkError::MetadataFetch(_) => "failed to fetch Kafka metadata"@,
            SinkError::MissingTopic { topic } => "required Kafka topic `"@ + topic@
                + "` was not found during preflight"@,
            SinkError::MissingEnvVar { name } => "required Kafka auth env var `"@ + name@
                + "` was not set"@,
            SinkError::Message(text) => text@,
        }
    }

    /// The failure in words.
    pub fn message(&self) -> (r: String)
        ensures
            r@ == self.text(),
    {
        match self {
            SinkError::CreateProducer(_) => "failed to create Kafka producer".to_owned(),
            SinkError::Deliver(_) => "failed to deliver Kafka record".to_owned(),
            SinkError::MetadataFetch(_) => "failed to fetch Kafka metadata".to_owned(),
            SinkError::MissingTopic { topic } => concat3(
                "required Kafka topic `",
                topic.as_str(),
                "` was not found during preflight",
            ),
            SinkError::MissingEnvVar { name } => concat3(
                "required Kafka auth env var `",
                name.as_str(),
                "` was not set",
            ),
            SinkError::Message(text) => text.clone(),
        }
    }
}

/// How to log in to Kafka.
#[derive(Debug, PartialEq, Eq)]
pub struct ResolvedKafkaAuth {
    pub security_protocol: String,
    pub sasl_mechanism: String,
    pub username: String,
    pub password: String,
    pub ssl_ca_location: Option<String>,
}

/// Whether `r` is how to log in, where the environment variables hold the given texts, if any.
pub open spec fn is_resolved(
    auth: KafkaAuthConfig,
    username: Option<Seq<char>>,
    password: Option<Seq<char>>,
    r: Result<ResolvedKafkaAuth, SinkError>,
) -> bool {
    match (username, password) {
        (None, _) => r matches Err(SinkError::MissingEnvVar { name }) && name@
            == auth.username_env@,
        (Some(_), None) => r matches Err(SinkError::MissingEnvVar { name }) && name@
            == auth.password_env@,
        (Some(username), Some(password)) => r is Ok && {
            let resolved = r->Ok_0;
            &&& resolved.security_protocol@ == auth.security_protocol@
            &&& resolved.sasl_mechanism@ == auth.sasl_mechanism@
            &&& resolved.username@ == username
            &&& resolved.password@ == password
            &&& opt_view(resolved.ssl_ca_location) == opt_view(auth.ssl_ca_location)
        },
    }
}

/// Whether `lookup` finds variables as `env` says.
pub open spec fn finds_as<F: Fn(&str) -> Option<String>>(
    lookup: F,
    env: spec_fn(Seq<char>) -> Option<Seq<char>>,
) -> bool {
    forall|name: &str, r: Option<String>| #[trigger]
        call_ensures(lookup, (name,), r) ==> opt_view(r) == env(name@)
}

/// Whether `value` is something that `lookup` may find under the name.
pub open spec fn may_find<F: Fn(&str) -> Option<String>>(
    lookup: F,
    name: Seq<char>,
    value: Option<String>,
) -> bool {
    exists|text: &str| text@ == name && #[trigger] call_ensures(lookup, (text,), value)
}

/// Whether `r` is how to log in with what `lookup` may find, whether or not it finds the same
/// each time. The password is looked up only where there is a user.
pub open spec fn resolved_by<F: Fn(&str) -> Option<String>>(
    lookup: F,
    auth: KafkaAuthConfig,
    r: Result<ResolvedKafkaAuth, SinkError>,
) -> bool {
    exists|username: Option<String>|
        {
            &&& #[trigger] may_find(lookup, auth.username_env@, username)
            &&& match username {
                None => is_resolved(auth, None, None, r),
                Some(_) => exists|password: Option<String>|
                    {
                        &&& #[trigger] may_find(lookup, auth.password_env@, password)
                        &&& is_resolved(auth, opt_view(username), opt_view(password), r)
                    },
            }
        }
}

/// How to log in, where the environment variables hold the given texts, if any.
pub fn auth_from(
    auth: &KafkaAuthConfig,
    username: Option<String>,
    password: Option<String>,
) -> (r: Result<ResolvedKafkaAuth, SinkError>)
    ensures
        is_resolved(*auth, opt_view(username), opt_view(password), r),
{
    let username = match username {
        Some(username) => username,
        None => {
            return Err(SinkError::MissingEnvVar { name: auth.username_env.clone() });
        },
    };
    let password = match password {
        Some(password) => password,
        None => {
            return Err(SinkError::MissingEnvVar { name: auth.password_env.clone() });
        },
    };
    Ok(
        ResolvedKafkaAuth {
            security_protocol: auth.security_protocol.clone(),
            sasl_mechanism: auth.sasl_mechanism.clone(),
            username,
            password,
            ssl_ca_location: copy_of(&auth.ssl_ca_location),
        },
    )
}

/// How to log in, with the user and the password that `lookup_env` finds. A variable that is
/// missing is reported, the one for the user first.
pub fn resolve_auth<F: Fn(&str) -> Option<String>>(auth: &KafkaAuthConfig, lookup_env: F) -> (r:
    Result<ResolvedKafkaAuth, SinkError>)
    requires
        forall|name: &str| call_requires(lookup_env, (name,)),
    ensures
        forall|env: spec_fn(Seq<char>) -> Option<Seq<char>>| #[trigger]
            finds_as(lookup_env, env) ==> is_resolved(
                *auth,
                env(auth.username_env@),
                env(auth.password_env@),
                r,
            ),
        resolved_by(lookup_env, *auth, r),
{
    let username = lookup_env(auth.username_env.as_str());
    assert(may_find(lookup_env, auth.username_env@, username));
    if username.is_none() {
        return auth_from(auth, None, None);
    }
    let password = lookup_env(auth.password_env.as_str());
    assert(may_find(lookup_env, auth.password_env@, password));
    auth_from(auth, username, password)
}

/// The settings of the producer, in the order in which they are made.
pub open spec fn settings_of(
    bootstrap_servers: Seq<char>,
    client_id: Seq<char>,
    auth: Option<ResolvedKafkaAuth>,
) -> Seq<(Seq<char>, Seq<char>)> {
    let common = seq![
        ("bootstrap.servers"@, bootstrap_servers),
        ("client.id"@, client_id),
        ("acks"@, "all"@),
    ];
    match auth {
        Some(auth) => {
            let login = seq![
                ("security.protocol"@, auth.security_protocol@),
                ("sasl.mechanism"@, auth.sasl_mechanism@),
                ("sasl.username"@, auth.username@),
                ("sasl.password"@, auth.password@),
            ];
            match opt_view(auth.ssl_ca_location) {
                Some(location) => common + login + seq![("ssl.ca.location"@, location)],
                None => common + login,
            }
        },
        None => common,
    }
}

/// Adds a name and a value to the settings.
fn put(settings: &mut Vec<(String, String)>, name: &str, value: &str)
    ensures
        pair_views(final(settings)@) == pair_views(old(settings)@).push((name@, value@)),
{
    settings.push((name.to_owned(), value.to_owned()));
    assert(pair_views(settings@) =~= pair_views(old(settings)@).push((name@, value@)));
}

/// The settings of the producer. It waits for the acknowledgement of all replicas.
pub fn producer_settings(
    bootstrap_servers: &str,
    client_id: &str,
    auth: Option<ResolvedKafkaAuth>,
) -> (r: Vec<(String, String)>)
    ensures
        pair_views(r@) == settings_of(bootstrap_servers@, client_id@, auth),
{
    let mut settings: Vec<(String, String)> = Vec::new();
    put(&mut settings, "bootstrap.servers", bootstrap_servers);
    put(&mut settings, "client.id", client_id);
    put(&mut settings, "acks", "all");
    if let Some(auth) = &auth {
        put(&mut settings, "security.protocol", auth.security_protocol.as_str());
        put(&mut settings, "sasl.mechanism", auth.sasl_mechanism.as_str());
        put(&mut settings, "sasl.username", auth.username.as_str());
        put(&mut settings, "sasl.password", auth.password.as_str());
        if let Some(location) = &auth.ssl_ca_location {
            put(&mut settings, "ssl.ca.location", location.as_str());
        }
    }
    assert(pair_views(settings@) =~= settings_of(bootstrap_servers@, client_id@, auth));
    settings
}

/// Whether `r` is the settings of the producer, where the environment is as `env` says.
pub open spec fn is_configured(
    bootstrap_servers: Seq<char>,
    client_id: Seq<char>,
    auth: Option<KafkaAuthConfig>,
    env: spec_fn(Seq<char>) -> Option<Seq<char>>,
    r: Result<Vec<(String, String)>, SinkError>,
) -> bool {
    match auth {
        None => r is Ok && pair_views(r->Ok_0@) == settings_of(bootstrap_servers, client_id, None),
        Some(auth) => exists|login: Result<ResolvedKafkaAuth, SinkError>|
            {
                &&& #[trigger] is_resolved(
                    auth,
                    env(auth.username_env@),
                    env(auth.password_env@),
                    login,
                )
                &&& match login {
                    Ok(resolved) => r is Ok && pair_views(r->Ok_0@) == settings_of(
                        bootstrap_servers,
                        client_id,
                        Some(resolved),
                    ),
                    Err(error) => r is Err && r->Err_0 == error,
                }
            },
    }
}

/// Whether `r` is the settings of the producer, with what `lookup` may find.
pub open spec fn configured_by<F: Fn(&str) -> Option<String>>(
    bootstrap_servers: Seq<char>,
    client_id: Seq<char>,
    auth: Option<KafkaAuthConfig>,
    lookup: F,
    r: Result<Vec<(String, String)>, SinkError>,
) -> bool {
    match auth {
        None => r is Ok && pair_views(r->Ok_0@) == settings_of(bootstrap_servers, client_id, None),
        Some(auth) => exists|login: Result<ResolvedKafkaAuth, SinkError>|
            {
                &&& #[trigger] resolved_by(lookup, auth, login)
                &&& match login {
                    Ok(resolved) => r is Ok && pair_views(r->Ok_0@) == settings_of(
                        bootstrap_servers,
                        client_id,
                        Some(resolved),
                    ),
                    Err(error) => r is Err && r->Err_0 == error,
                }
            },
    }
}

/// The settings of the producer, with the login, if there is one, taken from the environment.
pub fn sink_settings<F: Fn(&str) -> Option<String>>(
    bootstrap_servers: &str,
    client_id: &str,
    auth: Option<&KafkaAuthConfig>,
    lookup_env: F,
) -> (r: Result<Vec<(String, String)>, SinkError>)
    requires
        forall|name: &str| call_requires(lookup_env, (name,)),
    ensures
        forall|env: spec_fn(Seq<char>) -> Option<Seq<char>>| #[trigger]
            finds_as(lookup_env, env) ==> is_configured(
                bootstrap_servers@,
                client_id@,
                match auth {
                    Some(auth) => Some(*auth),
                    None => None,
                },
                env,
                r,
            ),
        configured_by(
            bootstrap_servers@,
            client_id@,
            match auth {
                Some(auth) => Some(*auth),
                None => None,
            },
            lookup_env,
            r,
        ),
{
    let login = match auth {
        Some(auth) => {
            let login = resolve_auth(auth, lookup_env);
            let ghost outcome = login;
            assert(resolved_by(lookup_env, *auth, outcome));
            assert(forall|env: spec_fn(Seq<char>) -> Option<Seq<char>>| #[trigger]
                finds_as(lookup_env, env) ==> is_resolved(
                    *auth,
                    env(auth.username_env@),
                    env(auth.password_env@),
                    outcome,
                ));
            match login {
                Ok(login) => Some(login),
                Err(error) => {
                    return Err(error);
                },
            }
        },
        None => None,
    };
    Ok(producer_settings(bootstrap_servers, client_id, login))
}

/// The topics that have yet to be found in Kafka, each once and in order.
#[derive(Debug)]
pub struct TopicCheck {
    topics: TextMap<()>,
    next: usize,
}

impl View for TopicCheck {
    type V = Seq<Seq<char>>;

    /// The topics that are left.
    closed spec fn view(&self) -> Seq<Seq<char>> {
        self.topics.keys().skip(self.next as int)
    }
}

/// Whether `todo` holds the topics, each once and in order, where they have to exist, and nothing
/// where they do not.
pub open spec fn to_be_found(
    todo: Seq<Seq<char>>,
    topics: Seq<Seq<char>>,
    require_topics_exist: bool,
) -> bool {
    if require_topics_exist {
        ascending(todo) && todo.to_set() == topics.to_set()
    } else {
        todo.len() == 0
    }
}

impl TopicCheck {
    #[verifier::type_invariant]
    spec fn well_formed(self) -> bool {
        self.next <= self.topics.keys().len()
    }

    /// Starts to check the topics.
    pub fn preflight(topics: &Vec<String>, require_topics_exist: bool) -> (r: TopicCheck)
        ensures
            to_be_found(r@, views(topics@), require_topics_exist),
    {
        let mut unique: TextMap<()> = TextMap::new();
        if require_topics_exist {
            let mut i: usize = 0;
            while i < topics.len()
                invariant
                    i <= topics.len(),
                    unique@.dom() =~= views(topics@).take(i as int).to_set(),
                decreases topics.len() - i,
            {
                unique.insert(topics[i].clone(), ());
                proof {
                    let before = views(topics@).take(i as int);
                    let now = views(topics@).take(i + 1);
                    assert(now =~= before.push(topics@[i as int]@));
                    assert forall|t: Seq<char>|
                        now.to_set().contains(t) == before.to_set().insert(
                            topics@[i as int]@,
                        ).contains(t) by {
                        if before.contains(t) {
                            let j = before.index_of(t);
                            assert(now[j] == t);
                        }
                        assert(now[i as int] == topics@[i as int]@);
                        if now.contains(t) && t != topics@[i as int]@ {
                            let j = now.index_of(t);
                            assert(before[j] == t);
                        }
                    }
                    assert(now.to_set() =~= before.to_set().insert(topics@[i as int]@));
                }
                i += 1;
            }
            assert(views(topics@).take(topics.len() as int) =~= views(topics@));
        }
        let count: usize = unique.len();
        let r = TopicCheck { topics: unique, next: 0 };
        proof {
            assert(r@ =~= unique.keys());
            if require_topics_exist {
                assert forall|t: Seq<char>| r@.to_set().contains(t) == views(
                    topics@,
                ).to_set().contains(t) by {
                    assert(unique@.contains_key(t) <==> unique.keys().contains(t));
                }
                assert(r@.to_set() =~= views(topics@).to_set());
            } else {
                if count > 0 {
                    assert(unique.keys().contains(unique.keys()[0]));
                    assert(unique@.contains_key(unique.keys()[0]));
                }
            }
        }
        r
    }

    /// The topic to look for next, if one is left.
    pub fn next_topic(&self) -> (r: Option<&str>)
        ensures
            str_view(r) == if self@.len() > 0 {
                Some(self@[0])
            } else {
                None
            },
    {
        proof {
            use_type_invariant(self);
        }
        if self.next < self.topics.len() {
            Some(self.topics.at(self.next).0)
        } else {
            None
        }
    }

    /// Takes note of the topics that Kafka lists when asked for the next one.
    pub fn listed(&mut self, names: &Vec<String>) -> (r: Result<(), SinkError>)
        ensures
            ({
                let found = old(self)@.len() > 0 && views(names@).contains(old(self)@[0]);
                let missing = old(self)@.len() > 0 && !found;
                &&& final(self)@ == if found {
                    old(self)@.skip(1)
                } else {
                    old(self)@
                }
                &&& !missing ==> r is Ok
                &&& missing ==> (r matches Err(SinkError::MissingTopic { topic }) && topic@ == old(
                    self,
                )@[0])
            }),
    {
        let topic = match self.next_topic() {
            Some(topic) => topic.to_owned(),
            None => {
                return Ok(());
            },
        };
        if !lists(names, topic.as_str()) {
            return Err(SinkError::MissingTopic { topic });
        }
        proof {
            use_type_invariant(&*self);
            assert(self.topics.keys().skip(self.next as int).skip(1) =~= self.topics.keys().skip(
                self.next + 1,
            ));
        }
        let next: usize = self.next;
        if next < self.topics.len() {
            self.next = next + 1;
        }
        Ok(())
    }
}

/// Whether the topic is among the names.
fn lists(names: &Vec<String>, topic: &str) -> (r: bool)
    ensures
        r == views(names@).contains(topic@),
{
    let mut i: usize = 0;
    while i < names.len()
        invariant
            i <= names.len(),
            forall|j: int| 0 <= j < i ==> #[trigger] views(names@)[j] != topic@,
        decreases names.len() - i,
    {
        if same_text(names[i].as_str(), topic) {
            assert(views(names@)[i as int] == topic@);
            return true;
        }
        i += 1;
    }
    false
}

} // verus!
