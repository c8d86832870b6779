//! What holds of what goes to Kafka, and of how the bridge connects to it.
use crate::config::KafkaAuthConfig;
use crate::kafka::{
    configured_by, is_configured, is_resolved, may_find, resolved_by, settings_of, to_be_found, RecordView,
    ResolvedKafkaAuth, SinkError,
};
use crate::text::opt_view;
use crate::text_map::{ascending, lemma_precedes_one_way};
use crate::transport::pair_views;
use vstd::prelude::*;
use vstd::string::*;
use vstd::utf8::*;

verus! {

/// A record goes along with two headers: where it comes from, and where it ends.
pub proof fn law_headers_of_a_record(record: RecordView)
    ensures
        record.headers().len() == 2,
        record.headers()[0] == ("durable-stream-path"@, encode_utf8(record.stream_path)),
        record.headers()[1] == ("durable-stream-next-offset"@, encode_utf8(record.next_offset)),
{
}

/// The producer connects to the servers under its name and waits for the acknowledgement of all
/// replicas, and that is all where there is no login.
pub proof fn law_common_settings(
    servers: Seq<char>,
    client_id: Seq<char>,
    auth: Option<ResolvedKafkaAuth>,
)
    ensures
        ({
            let settings = settings_of(servers, client_id, auth);
            &&& settings[0] == ("bootstrap.servers"@, servers)
            &&& settings[1] == ("client.id"@, client_id)
            &&& settings[2] == ("acks"@, "all"@)
            &&& auth is None ==> settings.len() == 3
        }),
{
}

/// With a login the producer also says how, as whom and with which password to log in, and where
/// the certificates are, if that is given.
pub proof fn law_login_settings(
    servers: Seq<char>,
    client_id: Seq<char>,
    auth: ResolvedKafkaAuth,
)
    ensures
        ({
            let settings = settings_of(servers, client_id, Some(auth));
            &&& settings[3] == ("security.protocol"@, auth.security_protocol@)
            &&& settings[4] == ("sasl.mechanism"@, auth.sasl_mechanism@)
            &&& settings[5] == ("sasl.username"@, auth.username@)
            &&& settings[6] == ("sasl.password"@, auth.password@)
            &&& auth.ssl_ca_location is None ==> settings.len() == 7
            &&& auth.ssl_ca_location is Some ==> settings.len() == 8 && settings[7] == (
                "ssl.ca.location"@,
                auth.ssl_ca_location->0@,
            )
        }),
{
}

/// Whether the login is made of what the configuration says, the user and the password.
pub open spec fn logs_in_as(
    login: ResolvedKafkaAuth,
    auth: KafkaAuthConfig,
    username: Seq<char>,
    password: Seq<char>,
) -> bool {
    &&& login.username@ == username
    &&& login.password@ == password
    &&& login.security_protocol@ == auth.security_protocol@
    &&& login.sasl_mechanism@ == auth.sasl_mechanism@
    &&& login.ssl_ca_location is Some <==> auth.ssl_ca_location is Some
    &&& login.ssl_ca_location is Some ==> login.ssl_ca_location->0@ == auth.ssl_ca_location->0@
}

/// Whether the failure says that the variable is not set.
pub open spec fn says_missing<T>(r: Result<T, SinkError>, name: Seq<char>) -> bool {
    r matches Err(SinkError::MissingEnvVar { name: missing }) && missing@ == name
}

/// A login succeeds exactly where the user and the password are both set. The variable that is not
/// set is named, that of the user first.
pub proof fn law_login(
    auth: KafkaAuthConfig,
    username: Option<Seq<char>>,
    password: Option<Seq<char>>,
    r: Result<ResolvedKafkaAuth, SinkError>,
)
    requires
        is_resolved(auth, username, password, r),
    ensures
        r is Ok <==> username is Some && password is Some,
        r matches Ok(login) ==> logs_in_as(login, auth, username->0, password->0),
        username is None ==> says_missing(r, auth.username_env@),
        username is Some && password is None ==> says_missing(r, auth.password_env@),
{
}

/// What comes of looking up the login is made of what the lookup may give for the two names: the
/// user for the one, and the password for the other.
pub proof fn law_login_is_looked_up<F: Fn(&str) -> Option<String>>(
    lookup: F,
    auth: KafkaAuthConfig,
    r: Result<ResolvedKafkaAuth, SinkError>,
)
    requires
        resolved_by(lookup, auth, r),
    ensures
        r matches Ok(login) ==> exists|username: &str, password: &str, u: String, p: String|
            username@ == auth.username_env@ && password@ == auth.password_env@
                && #[trigger] call_ensures(lookup, (username,), Some(u))
                && #[trigger] call_ensures(lookup, (password,), Some(p)) && logs_in_as(
                login,
                auth,
                u@,
                p@,
            ),
        r is Err ==> says_missing(r, auth.username_env@) || says_missing(r, auth.password_env@),
        says_missing(r, auth.username_env@) && auth.username_env@ != auth.password_env@ ==> exists|
            username: &str,
        |
            username@ == auth.username_env@ && #[trigger] call_ensures(
                lookup,
                (username,),
                None::<String>,
            ),
{
    let username = choose|username: Option<String>|
        {
            &&& #[trigger] may_find(lookup, auth.username_env@, username)
            &&& match username {
                None => is_resolved(auth, None, None, r),
                Some(_) => exists|password: Option<String>|
                    {
                        &&& #[trigger] may_find(lookup, auth.password_env@, password)
                        &&& is_resolved(auth, opt_view(username), opt_view(password), r)
                    },
            }
        };
    let name = choose|text: &str|
        text@ == auth.username_env@ && #[trigger] call_ensures(lookup, (text,), username);
    if username is Some {
        let password = choose|password: Option<String>|
            {
                &&& #[trigger] may_find(lookup, auth.password_env@, password)
                &&& is_resolved(auth, opt_view(username), opt_view(password), r)
            };
        let other = choose|text: &str|
            text@ == auth.password_env@ && #[trigger] call_ensures(lookup, (text,), password);
        law_login(auth, opt_view(username), opt_view(password), r);
        if r is Ok {
            assert(username == Some(username->0) && password == Some(password->0));
            assert(call_ensures(lookup, (name,), Some(username->0)));
            assert(call_ensures(lookup, (other,), Some(password->0)));
        }
    } else {
        law_login(auth, None, None, r);
        assert(call_ensures(lookup, (name,), None::<String>));
    }
}

/// The settings with a login from the environment are those of that login; without one they are
/// the common ones, and a variable that is not set is named.
pub proof fn law_settings_from_the_environment(
    servers: Seq<char>,
    client_id: Seq<char>,
    auth: Option<KafkaAuthConfig>,
    env: spec_fn(Seq<char>) -> Option<Seq<char>>,
    r: Result<Vec<(String, String)>, SinkError>,
)
    requires
        is_configured(servers, client_id, auth, env, r),
    ensures
        auth is None ==> r is Ok && pair_views(r->Ok_0@) == settings_of(servers, client_id, None),
        auth is Some && env(auth->0.username_env@) is None ==> says_missing(
            r,
            auth->0.username_env@,
        ),
        auth is Some && env(auth->0.username_env@) is Some && env(auth->0.password_env@) is None
            ==> says_missing(r, auth->0.password_env@),
        auth is Some && env(auth->0.username_env@) is Some && env(auth->0.password_env@) is Some
            ==> r is Ok && exists|login: ResolvedKafkaAuth| #[trigger]
            logs_in_as(
                login,
                auth->0,
                env(auth->0.username_env@)->0,
                env(auth->0.password_env@)->0,
            ) && pair_views(r->Ok_0@) == settings_of(servers, client_id, Some(login)),
{
    if auth is Some {
        let a = auth->0;
        let login = choose|login: Result<ResolvedKafkaAuth, SinkError>|
            {
                &&& #[trigger] is_resolved(a, env(a.username_env@), env(a.password_env@), login)
                &&& match login {
                    Ok(resolved) => r is Ok && pair_views(r->Ok_0@) == settings_of(
                        servers,
                        client_id,
                        Some(resolved),
                    ),
                    Err(error) => r is Err && r->Err_0 == error,
                }
            };
        law_login(a, env(a.username_env@), env(a.password_env@), login);
    }
}

/// The settings with a login that is looked up are those of what the lookup gave. Where the login
/// fails, its failure is handed on, and without a login nothing fails.
pub proof fn law_settings_of_a_looked_up_login<F: Fn(&str) -> Option<String>>(
    servers: Seq<char>,
    client_id: Seq<char>,
    auth: Option<KafkaAuthConfig>,
    lookup: F,
    r: Result<Vec<(String, String)>, SinkError>,
)
    requires
        configured_by(servers, client_id, auth, lookup, r),
    ensures
        auth is None ==> r is Ok && pair_views(r->Ok_0@) == seq![
            ("bootstrap.servers"@, servers),
            ("client.id"@, client_id),
            ("acks"@, "all"@),
        ],
        r is Err ==> auth is Some && resolved_by(
            lookup,
            auth->0,
            Err::<ResolvedKafkaAuth, SinkError>(r->Err_0),
        ),
        auth is Some && r is Ok ==> exists|login: ResolvedKafkaAuth|
            {
                let settings = pair_views(r->Ok_0@);
                &&& #[trigger] resolved_by(lookup, auth->0, Ok::<ResolvedKafkaAuth, SinkError>(login))
                &&& settings[0] == ("bootstrap.servers"@, servers)
                &&& settings[1] == ("client.id"@, client_id)
                &&& settings[2] == ("acks"@, "all"@)
                &&& settings[5] == ("sasl.username"@, login.username@)
                &&& settings[6] == ("sasl.password"@, login.password@)
            },
{
    if auth is Some {
        let login = choose|login: Result<ResolvedKafkaAuth, SinkError>|
            {
                &&& #[trigger] resolved_by(lookup, auth->0, login)
                &&& match login {
                    Ok(resolved) => r is Ok && pair_views(r->Ok_0@) == settings_of(
                        servers,
                        client_id,
                        Some(resolved),
                    ),
                    Err(error) => r is Err && r->Err_0 == error,
                }
            };
        if login is Ok {
            law_common_settings(servers, client_id, Some(login->Ok_0));
            law_login_settings(servers, client_id, login->Ok_0);
            assert(resolved_by(lookup, auth->0, Ok::<ResolvedKafkaAuth, SinkError>(login->Ok_0)));
        }
    }
}

/// Where topics have to exist, each is looked for, once, and no other; where they do not, none is.
pub proof fn law_topics_to_be_found(
    todo: Seq<Seq<char>>,
    topics: Seq<Seq<char>>,
    require_topics_exist: bool,
    topic: Seq<char>,
    i: int,
    j: int,
)
    requires
        to_be_found(todo, topics, require_topics_exist),
    ensures
        require_topics_exist ==> (todo.contains(topic) <==> topics.contains(topic)),
        require_topics_exist && 0 <= i < j < todo.len() ==> todo[i] != todo[j],
        !require_topics_exist ==> todo.len() == 0,
{
    if require_topics_exist {
        assert(todo.to_set().contains(topic) <==> topics.to_set().contains(topic));
        if 0 <= i < j < todo.len() {
            assert(ascending(todo));
            lemma_precedes_one_way(todo[i], todo[j]);
        }
    }
}

} // verus!
