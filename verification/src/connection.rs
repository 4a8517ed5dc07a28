//! How a binding connects: the choice of TLS, the connect parameters handed to
//! the driver, and the bounds of the connection pool. Nothing here opens a
//! socket.
use hdbconnect_async::{ConnectParamsBuilder, ConnectionManager, ServerCerts};
use vstd::prelude::*;
use vstd::string::StringExecFns;

use crate::text::{text_option, trim, trimmed};

verus! {

/// The TLS choice of a binding.
#[derive(Debug, PartialEq)]
pub enum TlsChoice {
    /// No TLS.
    Plaintext,
    /// TLS, with the server chain verified against the webpki roots.
    SystemRoots,
    /// TLS, with the server chain verified against this PEM trust anchor.
    Ca(String),
    /// TLS without verification of the server.
    NoVerify,
}

/// What a [`TlsChoice`] stands for.
pub enum TlsModel {
    Plaintext,
    SystemRoots,
    Ca(Seq<char>),
    NoVerify,
}

impl View for TlsChoice {
    type V = TlsModel;

    open spec fn view(&self) -> TlsModel {
        match self {
            TlsChoice::Plaintext => TlsModel::Plaintext,
            TlsChoice::SystemRoots => TlsModel::SystemRoots,
            TlsChoice::Ca(pem) => TlsModel::Ca(pem@),
            TlsChoice::NoVerify => TlsModel::NoVerify,
        }
    }
}

/// The TLS choice that the three knobs of a binding make. Without TLS the other
/// two are ignored; a trust anchor counts where it holds more than white space.
pub open spec fn tls_choice(
    use_tls: bool,
    tls_verify_peer: bool,
    tls_ca_cert: Option<Seq<char>>,
) -> TlsModel {
    if !use_tls {
        TlsModel::Plaintext
    } else if !tls_verify_peer {
        TlsModel::NoVerify
    } else {
        match tls_ca_cert {
            Some(pem) => if trimmed(pem).len() > 0 {
                TlsModel::Ca(trimmed(pem))
            } else {
                TlsModel::SystemRoots
            },
            None => TlsModel::SystemRoots,
        }
    }
}

/// Resolves the TLS choice of a binding.
pub fn resolve_tls(use_tls: bool, tls_verify_peer: bool, tls_ca_cert: &Option<String>) -> (choice:
    TlsChoice)
    ensures
        choice@ == tls_choice(use_tls, tls_verify_peer, text_option(*tls_ca_cert)),
{
    if !use_tls {
        return TlsChoice::Plaintext;
    }
    if !tls_verify_peer {
        return TlsChoice::NoVerify;
    }
    match tls_ca_cert {
        Some(text) => {
            let pem = trim(text);
            if pem.as_str().is_empty() {
                TlsChoice::SystemRoots
            } else {
                TlsChoice::Ca(pem)
            }
        },
        None => TlsChoice::SystemRoots,
    }
}

/// A connection is plaintext exactly where `use_tls` is off, and over TLS the
/// server goes unverified exactly where `tls_verify_peer` is off.
pub proof fn law_tls_is_verified_unless_switched_off(
    use_tls: bool,
    tls_verify_peer: bool,
    tls_ca_cert: Option<Seq<char>>,
)
    ensures
        tls_choice(use_tls, tls_verify_peer, tls_ca_cert) is Plaintext <==> !use_tls,
        tls_choice(use_tls, tls_verify_peer, tls_ca_cert) is NoVerify <==> use_tls
            && !tls_verify_peer,
{
}

/// `hdbconnect_async::ConnectParamsBuilder`.
#[verifier::external_type_specification]
#[verifier::external_body]
pub struct ExConnectParamsBuilder(hdbconnect_async::ConnectParamsBuilder);

/// `hdbconnect_async::ConnectionManager`.
#[verifier::external_type_specification]
#[verifier::external_body]
pub struct ExConnectionManager(hdbconnect_async::ConnectionManager);

/// A certificate source that the driver is to trust.
enum TrustSource {
    /// The webpki roots.
    Roots,
    /// A PEM text.
    Pem(String),
}

/// What a certificate source stands for.
pub enum TrustAnchor {
    Roots,
    Pem(Seq<char>),
}

impl View for TrustSource {
    type V = TrustAnchor;

    closed spec fn view(&self) -> TrustAnchor {
        match self {
            TrustSource::Roots => TrustAnchor::Roots,
            TrustSource::Pem(pem) => TrustAnchor::Pem(pem@),
        }
    }
}

/// How the driver uses TLS.
pub enum TlsSettings {
    /// Not at all.
    Off,
    /// Without verification of the server.
    Insecure,
    /// With the server verified against these.
    Secure(Seq<TrustAnchor>),
}

/// The connect parameters that a binding sets.
pub struct ConnectSettings {
    pub host: Option<Seq<char>>,
    pub port: Option<u16>,
    pub user: Option<Seq<char>>,
    pub password: Option<Seq<char>>,
    pub database: Option<Seq<char>>,
    pub tls: TlsSettings,
}

/// The connect parameters that a builder holds.
pub uninterp spec fn builder_settings(builder: ConnectParamsBuilder) -> ConnectSettings;

/// The connect parameters that a manager connects with.
pub uninterp spec fn manager_settings(manager: ConnectionManager) -> ConnectSettings;

/// `ConnectParamsBuilder::new`: nothing is set, and TLS is off.
#[verifier::external_body]
fn new_builder() -> (builder: ConnectParamsBuilder)
    ensures
        builder_settings(builder) == (ConnectSettings {
            host: None,
            port: None,
            user: None,
            password: None,
            database: None,
            tls: TlsSettings::Off,
        }),
{
    ConnectParamsBuilder::new()
}

/// `ConnectParamsBuilder::hostname`: sets the host and nothing else.
#[verifier::external_body]
fn set_host(builder: &mut ConnectParamsBuilder, host: &str)
    ensures
        builder_settings(*final(builder)) == (ConnectSettings {
            host: Some(host@),
            ..builder_settings(*old(builder))
        }),
{
    builder.hostname(host);
}

/// `ConnectParamsBuilder::port`: sets the port and nothing else.
#[verifier::external_body]
fn set_port(builder: &mut ConnectParamsBuilder, port: u16)
    ensures
        builder_settings(*final(builder)) == (ConnectSettings {
            port: Some(port),
            ..builder_settings(*old(builder))
        }),
{
    builder.port(port);
}

/// `ConnectParamsBuilder::dbuser`: sets the user and nothing else.
#[verifier::external_body]
fn set_user(builder: &mut ConnectParamsBuilder, user: &str)
    ensures
        builder_settings(*final(builder)) == (ConnectSettings {
            user: Some(user@),
            ..builder_settings(*old(builder))
        }),
{
    builder.dbuser(user);
}

/// `ConnectParamsBuilder::password`: sets the password and nothing else.
#[verifier::external_body]
fn set_password(builder: &mut ConnectParamsBuilder, password: &str)
    ensures
        builder_settings(*final(builder)) == (ConnectSettings {
            password: Some(password@),
            ..builder_settings(*old(builder))
        }),
{
    builder.password(password);
}

/// `ConnectParamsBuilder::dbname`: sets the database and nothing else.
#[verifier::external_body]
fn set_database(builder: &mut ConnectParamsBuilder, database: &str)
    ensures
        builder_settings(*final(builder)) == (ConnectSettings {
            database: Some(database@),
            ..builder_settings(*old(builder))
        }),
{
    builder.dbname(database);
}

/// TLS settings with one more trusted certificate source.
pub open spec fn trusting(tls: TlsSettings, anchor: TrustAnchor) -> TlsSettings {
    match tls {
        TlsSettings::Secure(anchors) => TlsSettings::Secure(anchors.push(anchor)),
        _ => TlsSettings::Secure(seq![anchor]),
    }
}

/// `ConnectParamsBuilder::tls_with`: adds a certificate source to the trusted
/// ones, turning TLS on with verification, and changes nothing else.
#[verifier::external_body]
fn trust(builder: &mut ConnectParamsBuilder, source: TrustSource)
    ensures
        builder_settings(*final(builder)) == (ConnectSettings {
            tls: trusting(builder_settings(*old(builder)).tls, source@),
            ..builder_settings(*old(builder))
        }),
{
    builder.tls_with(
        match source {
            TrustSource::Roots => ServerCerts::RootCertificates,
            TrustSource::Pem(pem) => ServerCerts::Direct(pem),
        },
    );
}

/// `ConnectParamsBuilder::tls_without_server_verification`: turns TLS on without
/// verification, and changes nothing else.
#[verifier::external_body]
fn trust_anyone(builder: &mut ConnectParamsBuilder)
    ensures
        builder_settings(*final(builder)) == (ConnectSettings {
            tls: TlsSettings::Insecure,
            ..builder_settings(*old(builder))
        }),
{
    builder.tls_without_server_verification();
}

/// The words with which the driver refuses to connect with these settings: the
/// first setting that is missing.
pub open spec fn settings_fault(settings: ConnectSettings) -> Option<Seq<char>> {
    if settings.host is None {
        Some("Wrong usage: hostname is missing"@)
    } else if settings.port is None {
        Some("Wrong usage: port is missing"@)
    } else if settings.user is None {
        Some("Wrong usage: dbuser is missing"@)
    } else if settings.password is None {
        Some("Wrong usage: password is missing"@)
    } else {
        None
    }
}

/// `ConnectionManager::new` on a builder: a manager that connects with its
/// settings, or the words of its error. Nothing is connected.
#[verifier::external_body]
fn new_manager(builder: ConnectParamsBuilder) -> (manager: Result<ConnectionManager, String>)
    ensures
        match manager {
            Ok(m) => settings_fault(builder_settings(builder)) is None && manager_settings(m)
                == builder_settings(builder),
            Err(words) => settings_fault(builder_settings(builder)) == Some(words@),
        },
{
    ConnectionManager::new(builder).map_err(|e| e.to_string())
}

/// How the driver uses TLS for a choice.
pub open spec fn tls_settings(choice: TlsModel) -> TlsSettings {
    match choice {
        TlsModel::Plaintext => TlsSettings::Off,
        TlsModel::SystemRoots => TlsSettings::Secure(seq![TrustAnchor::Roots]),
        TlsModel::Ca(pem) => TlsSettings::Secure(seq![TrustAnchor::Pem(pem)]),
        TlsModel::NoVerify => TlsSettings::Insecure,
    }
}

/// A pool that is still to be built: whom it connects to, how many connections
/// it holds at most, and how long a caller waits for one.
pub struct PoolPlan {
    pub manager: ConnectionManager,
    pub max_size: u32,
    pub connection_timeout_ms: u64,
}

/// Puts together the connect parameters and the bounds of a pool. Without a
/// password there is no pool.
pub fn build_pool(
    host: &str,
    port: u16,
    user: &str,
    password: Option<&str>,
    database: Option<&str>,
    tls: TlsChoice,
    pool_max_size: u32,
    connection_timeout_ms: u64,
) -> (plan: Result<PoolPlan, String>)
    ensures
        match plan {
            Ok(p) => {
                &&& password is Some
                &&& manager_settings(p.manager) == (ConnectSettings {
                    host: Some(host@),
                    port: Some(port),
                    user: Some(user@),
                    password: Some(password->0@),
                    database: match database {
                        Some(d) => Some(d@),
                        None => None,
                    },
                    tls: tls_settings(tls@),
                })
                &&& p.max_size == if pool_max_size == 0 {
                    1
                } else {
                    pool_max_size
                }
                &&& p.connection_timeout_ms == connection_timeout_ms
            },
            Err(words) => password is None && words@
                == "HANA connect-params build failed: Wrong usage: password is missing"@,
        },
{
    let mut builder = new_builder();
    set_host(&mut builder, host);
    set_port(&mut builder, port);
    set_user(&mut builder, user);
    if let Some(pw) = password {
        set_password(&mut builder, pw);
    }
    if let Some(db) = database {
        set_database(&mut builder, db);
    }
    match tls {
        TlsChoice::Plaintext => {},
        TlsChoice::SystemRoots => trust(&mut builder, TrustSource::Roots),
        TlsChoice::Ca(pem) => trust(&mut builder, TrustSource::Pem(pem)),
        TlsChoice::NoVerify => trust_anyone(&mut builder),
    }
    match new_manager(builder) {
        Ok(manager) => Ok(
            PoolPlan {
                manager,
                max_size: if pool_max_size == 0 {
                    1
                } else {
                    pool_max_size
                },
                connection_timeout_ms,
            },
        ),
        Err(reason) => {
            let mut words = "HANA connect-params build failed: ".to_owned();
            words.append(&reason);
            proof {
                reveal_strlit("HANA connect-params build failed: ");
                reveal_strlit("Wrong usage: password is missing");
                reveal_strlit(
                    "HANA connect-params build failed: Wrong usage: password is missing",
                );
                assert(words@
                    =~= "HANA connect-params build failed: Wrong usage: password is missing"@);
            }
            Err(words)
        },
    }
}

/// What the three knobs of a binding come to: no TLS where it is off; TLS without
/// verification where that is off; and else verification, against the given trust
/// anchor without the white space around it where there is one, and against the
/// webpki roots where there is none.
pub proof fn law_tls_knobs(verify: bool, pem: Seq<char>, anchor: Option<Seq<char>>)
    ensures
        tls_settings(tls_choice(false, verify, anchor)) == TlsSettings::Off,
        tls_settings(tls_choice(true, false, anchor)) == TlsSettings::Insecure,
        tls_settings(tls_choice(true, true, None)) == TlsSettings::Secure(
            seq![TrustAnchor::Roots],
        ),
        trimmed(pem).len() == 0 ==> tls_settings(tls_choice(true, true, Some(pem)))
            == TlsSettings::Secure(seq![TrustAnchor::Roots]),
        trimmed(pem).len() > 0 ==> tls_settings(tls_choice(true, true, Some(pem)))
            == TlsSettings::Secure(seq![TrustAnchor::Pem(trimmed(pem))]),
{
}

/// A TLS choice stands for what it is.
pub proof fn law_tls_choices_stand_for_what_they_are(pem: String)
    ensures
        TlsChoice::Plaintext@ == TlsModel::Plaintext,
        TlsChoice::SystemRoots@ == TlsModel::SystemRoots,
        TlsChoice::Ca(pem)@ == TlsModel::Ca(pem@),
        TlsChoice::NoVerify@ == TlsModel::NoVerify,
{
}

/// A pool is built exactly where there is a password. It connects as it was told,
/// holds at least one connection, and waits as long as it was told.
pub proof fn law_built_pools(
    host: &str,
    port: u16,
    user: &str,
    password: Option<&str>,
    database: Option<&str>,
    tls: TlsChoice,
    pool_max_size: u32,
    connection_timeout_ms: u64,
    plan: Result<PoolPlan, String>,
)
    requires
        call_ensures(
            build_pool,
            (host, port, user, password, database, tls, pool_max_size, connection_timeout_ms),
            plan,
        ),
    ensures
        plan is Ok <==> password is Some,
        plan matches Ok(pool) ==> {
            let settings = manager_settings(pool.manager);
            &&& settings.host == Some(host@)
            &&& settings.port == Some(port)
            &&& settings.user == Some(user@)
            &&& settings.password == Some(password->0@)
            &&& database matches Some(name) ==> settings.database == Some(name@)
            &&& database is None ==> settings.database is None
            &&& tls is Plaintext ==> settings.tls == TlsSettings::Off
            &&& tls is NoVerify ==> settings.tls == TlsSettings::Insecure
            &&& tls is SystemRoots ==> settings.tls == TlsSettings::Secure(
                seq![TrustAnchor::Roots],
            )
            &&& tls matches TlsChoice::Ca(pem) ==> settings.tls == TlsSettings::Secure(
                seq![TrustAnchor::Pem(pem@)],
            )
            &&& pool_max_size > 0 ==> pool.max_size == pool_max_size
            &&& pool.max_size > 0
            &&& pool.connection_timeout_ms == connection_timeout_ms
        },
{
}

/// TLS is resolved from the three knobs of a binding: off, without verification,
/// against the given trust anchor, or against the webpki roots.
pub proof fn law_resolved_tls(
    use_tls: bool,
    tls_verify_peer: bool,
    tls_ca_cert: &Option<String>,
    choice: TlsChoice,
)
    requires
        call_ensures(resolve_tls, (use_tls, tls_verify_peer, tls_ca_cert), choice),
    ensures
        choice is Plaintext <==> !use_tls,
        choice is NoVerify <==> use_tls && !tls_verify_peer,
        choice matches TlsChoice::Ca(pem) ==> (tls_ca_cert matches Some(text) && pem@ == trimmed(
            text@,
        ) && pem@.len() > 0),
        use_tls && tls_verify_peer ==> (choice is Ca <==> (tls_ca_cert matches Some(text)
            && trimmed(text@).len() > 0)),
{
}

} // verus!
