use vstd::prelude::*;

use crate::select::{
    collect_some, deref_all, deref_opt, first_some, lemma_collect_push, lemma_first_push,
    lemma_first_some_extend, lemma_prefix_step, opt_str_view,
};
use crate::text::{split_char, split_on, str_views};

verus! {

/// A whole autoconfig document: its format version, the provider it
/// describes and, where given, how to authorize against it with OAuth2.
#[derive(Debug, PartialEq)]
pub struct Config {
    version: String,
    email_provider: EmailProvider,
    oauth2: Option<OAuth2Config>,
}

impl Config {
    pub closed spec fn version_spec(&self) -> Seq<char> {
        self.version@
    }

    pub closed spec fn email_provider_spec(&self) -> EmailProvider {
        self.email_provider
    }

    pub closed spec fn oauth2_spec(&self) -> Option<OAuth2Config> {
        self.oauth2
    }

    pub fn new(version: String, email_provider: EmailProvider, oauth2: Option<OAuth2Config>) -> (r:
        Self)
        ensures
            r.version_spec() == version@,
            r.email_provider_spec() == email_provider,
            r.oauth2_spec() == oauth2,
    {
        Config { version, email_provider, oauth2 }
    }

    pub fn version(&self) -> (r: &str)
        ensures
            r@ == self.version_spec(),
    {
        self.version.as_str()
    }

    pub fn email_provider(&self) -> (r: &EmailProvider)
        ensures
            *r == self.email_provider_spec(),
    {
        &self.email_provider
    }

    pub fn oauth2(&self) -> (r: Option<&OAuth2Config>)
        ensures
            deref_opt(r) == self.oauth2_spec(),
    {
        match &self.oauth2 {
            Some(o) => Some(o),
            None => None,
        }
    }
}

/// How to obtain OAuth2 tokens for a provider.
#[derive(Debug, PartialEq)]
pub struct OAuth2Config {
    issuer: String,
    scope: String,
    auth_url: String,
    token_url: String,
}

impl OAuth2Config {
    pub closed spec fn issuer_spec(&self) -> Seq<char> {
        self.issuer@
    }

    pub closed spec fn scope_spec(&self) -> Seq<char> {
        self.scope@
    }

    pub closed spec fn auth_url_spec(&self) -> Seq<char> {
        self.auth_url@
    }

    pub closed spec fn token_url_spec(&self) -> Seq<char> {
        self.token_url@
    }

    pub fn new(issuer: String, scope: String, auth_url: String, token_url: String) -> (r: Self)
        ensures
            r.issuer_spec() == issuer@,
            r.scope_spec() == scope@,
            r.auth_url_spec() == auth_url@,
            r.token_url_spec() == token_url@,
    {
        OAuth2Config { issuer, scope, auth_url, token_url }
    }

    pub fn issuer(&self) -> (r: &str)
        ensures
            r@ == self.issuer_spec(),
    {
        self.issuer.as_str()
    }

    /// The scopes, which the document lists separated by single spaces.
    pub fn scope(&self) -> (r: Vec<&str>)
        ensures
            str_views(r@) == split_on(self.scope_spec(), ' '),
    {
        split_char(self.scope.as_str(), ' ')
    }

    pub fn auth_url(&self) -> (r: &str)
        ensures
            r@ == self.auth_url_spec(),
    {
        self.auth_url.as_str()
    }

    pub fn token_url(&self) -> (r: &str)
        ensures
            r@ == self.token_url_spec(),
    {
        self.token_url.as_str()
    }
}

/// A mail provider: its identifier and the list of what the document says of it.
#[derive(Debug, PartialEq)]
pub struct EmailProvider {
    id: String,
    properties: Vec<EmailProviderProperty>,
}

/// One entry of a provider's description.
#[derive(Debug, PartialEq)]
pub enum EmailProviderProperty {
    Domain(String),
    DisplayName(String),
    DisplayShortName(String),
    IncomingServer(Server),
    OutgoingServer(Server),
    Documentation(Documentation),
}

pub open spec fn property_domain(p: EmailProviderProperty) -> Option<Seq<char>> {
    match p {
        EmailProviderProperty::Domain(d) => Some(d@),
        _ => None,
    }
}

pub open spec fn property_display_name(p: EmailProviderProperty) -> Option<Seq<char>> {
    match p {
        EmailProviderProperty::DisplayName(d) => Some(d@),
        _ => None,
    }
}

pub open spec fn property_display_short_name(p: EmailProviderProperty) -> Option<Seq<char>> {
    match p {
        EmailProviderProperty::DisplayShortName(d) => Some(d@),
        _ => None,
    }
}

pub open spec fn property_incoming_server(p: EmailProviderProperty) -> Option<Server> {
    match p {
        EmailProviderProperty::IncomingServer(s) => Some(s),
        _ => None,
    }
}

pub open spec fn property_outgoing_server(p: EmailProviderProperty) -> Option<Server> {
    match p {
        EmailProviderProperty::OutgoingServer(s) => Some(s),
        _ => None,
    }
}

pub open spec fn property_server(p: EmailProviderProperty) -> Option<Server> {
    match p {
        EmailProviderProperty::IncomingServer(s) => Some(s),
        EmailProviderProperty::OutgoingServer(s) => Some(s),
        _ => None,
    }
}

pub open spec fn property_documentation(p: EmailProviderProperty) -> Option<Documentation> {
    match p {
        EmailProviderProperty::Documentation(d) => Some(d),
        _ => None,
    }
}

/// Every domain the provider serves, in document order.
pub open spec fn domains_of(props: Seq<EmailProviderProperty>) -> Seq<Seq<char>> {
    collect_some(props, |p: EmailProviderProperty| property_domain(p))
}

/// The first display name given.
pub open spec fn display_name_of(props: Seq<EmailProviderProperty>) -> Option<Seq<char>> {
    first_some(props, |p: EmailProviderProperty| property_display_name(p))
}

/// The first short display name given.
pub open spec fn display_short_name_of(props: Seq<EmailProviderProperty>) -> Option<Seq<char>> {
    first_some(props, |p: EmailProviderProperty| property_display_short_name(p))
}

/// Every incoming server, in document order.
pub open spec fn incoming_servers_of(props: Seq<EmailProviderProperty>) -> Seq<Server> {
    collect_some(props, |p: EmailProviderProperty| property_incoming_server(p))
}

/// Every outgoing server, in document order.
pub open spec fn outgoing_servers_of(props: Seq<EmailProviderProperty>) -> Seq<Server> {
    collect_some(props, |p: EmailProviderProperty| property_outgoing_server(p))
}

/// Every server, incoming or outgoing, in document order.
pub open spec fn servers_of(props: Seq<EmailProviderProperty>) -> Seq<Server> {
    collect_some(props, |p: EmailProviderProperty| property_server(p))
}

/// The first documentation entry given.
pub open spec fn documentation_of(props: Seq<EmailProviderProperty>) -> Option<Documentation> {
    first_some(props, |p: EmailProviderProperty| property_documentation(p))
}

/// Every server of a provider is an incoming or an outgoing one: the list of
/// all servers holds exactly the incoming and the outgoing servers, counted
/// with multiplicity.
pub proof fn lemma_servers_partition(props: Seq<EmailProviderProperty>)
    ensures
        servers_of(props).to_multiset() == incoming_servers_of(props).to_multiset().add(
            outgoing_servers_of(props).to_multiset(),
        ),
        servers_of(props).len() == incoming_servers_of(props).len() + outgoing_servers_of(
            props,
        ).len(),
    decreases props.len(),
{
    broadcast use vstd::seq_lib::group_to_multiset_ensures, vstd::multiset::group_multiset_axioms;

    if props.len() == 0 {
        assert(servers_of(props).to_multiset() =~= incoming_servers_of(props).to_multiset().add(
            outgoing_servers_of(props).to_multiset(),
        ));
    } else {
        let rest = props.drop_last();
        lemma_servers_partition(rest);
        let all = servers_of(rest);
        let inc = incoming_servers_of(rest);
        let out = outgoing_servers_of(rest);
        match props.last() {
            EmailProviderProperty::IncomingServer(s) => {
                assert(servers_of(props) == all.push(s));
                assert(incoming_servers_of(props) == inc.push(s));
                assert(outgoing_servers_of(props) == out);
                assert(all.push(s).to_multiset() =~= inc.push(s).to_multiset().add(
                    out.to_multiset(),
                ));
            },
            EmailProviderProperty::OutgoingServer(s) => {
                assert(servers_of(props) == all.push(s));
                assert(incoming_servers_of(props) == inc);
                assert(outgoing_servers_of(props) == out.push(s));
                assert(all.push(s).to_multiset() =~= inc.to_multiset().add(
                    out.push(s).to_multiset(),
                ));
            },
            _ => {
                assert(servers_of(props) == all);
                assert(incoming_servers_of(props) == inc);
                assert(outgoing_servers_of(props) == out);
            },
        }
    }
}

/// The domains of a provider are those of its `Domain` entries, in document
/// order: none for no entries; a `Domain` entry adds its text at the end; any
/// other entry adds nothing.
pub proof fn lemma_domains_law(props: Seq<EmailProviderProperty>, p: EmailProviderProperty)
    ensures
        domains_of(Seq::<EmailProviderProperty>::empty()) == Seq::<Seq<char>>::empty(),
        p matches EmailProviderProperty::Domain(d) ==> domains_of(props.push(p)) == domains_of(
            props,
        ).push(d@),
        !(p is Domain) ==> domains_of(props.push(p)) == domains_of(props),
{
    lemma_collect_push(props, p, |q: EmailProviderProperty| property_domain(q));
}

/// The incoming servers of a provider are those of all its `IncomingServer`
/// entries, whatever their type, in document order; no other entry adds one.
pub proof fn lemma_incoming_servers_law(props: Seq<EmailProviderProperty>, p: EmailProviderProperty)
    ensures
        incoming_servers_of(Seq::<EmailProviderProperty>::empty()) == Seq::<Server>::empty(),
        p matches EmailProviderProperty::IncomingServer(s) ==> incoming_servers_of(props.push(p))
            == incoming_servers_of(props).push(s),
        !(p is IncomingServer) ==> incoming_servers_of(props.push(p)) == incoming_servers_of(props),
{
    lemma_collect_push(props, p, |q: EmailProviderProperty| property_incoming_server(q));
}

/// The outgoing servers of a provider are those of all its `OutgoingServer`
/// entries, whatever their type, in document order; no other entry adds one.
pub proof fn lemma_outgoing_servers_law(props: Seq<EmailProviderProperty>, p: EmailProviderProperty)
    ensures
        outgoing_servers_of(Seq::<EmailProviderProperty>::empty()) == Seq::<Server>::empty(),
        p matches EmailProviderProperty::OutgoingServer(s) ==> outgoing_servers_of(props.push(p))
            == outgoing_servers_of(props).push(s),
        !(p is OutgoingServer) ==> outgoing_servers_of(props.push(p)) == outgoing_servers_of(props),
{
    lemma_collect_push(props, p, |q: EmailProviderProperty| property_outgoing_server(q));
}

/// All servers of a provider: every `IncomingServer` and every `OutgoingServer`
/// entry adds its server at the end, whatever its type; other entries add none.
pub proof fn lemma_servers_law(props: Seq<EmailProviderProperty>, p: EmailProviderProperty)
    ensures
        servers_of(Seq::<EmailProviderProperty>::empty()) == Seq::<Server>::empty(),
        p matches EmailProviderProperty::IncomingServer(s) ==> servers_of(props.push(p)) == servers_of(
            props,
        ).push(s),
        p matches EmailProviderProperty::OutgoingServer(s) ==> servers_of(props.push(p)) == servers_of(
            props,
        ).push(s),
        !(p is IncomingServer) && !(p is OutgoingServer) ==> servers_of(props.push(p)) == servers_of(
            props,
        ),
{
    lemma_collect_push(props, p, |q: EmailProviderProperty| property_server(q));
}

/// The display name is that of the first `DisplayName` entry: none for no
/// entries; a later entry changes it only if there was none before.
pub proof fn lemma_display_name_law(props: Seq<EmailProviderProperty>, p: EmailProviderProperty)
    ensures
        display_name_of(Seq::<EmailProviderProperty>::empty()) == None::<Seq<char>>,
        p matches EmailProviderProperty::DisplayName(x) ==> display_name_of(props.push(p)) == (if display_name_of(props) is Some {
            display_name_of(props)
        } else {
            Some(x@)
        }),
        !(p is DisplayName) ==> display_name_of(props.push(p)) == display_name_of(props),
{
    lemma_first_push(props, p, |q: EmailProviderProperty| property_display_name(q));
}

/// The short display name is that of the first `DisplayShortName` entry.
pub proof fn lemma_display_short_name_law(props: Seq<EmailProviderProperty>, p: EmailProviderProperty)
    ensures
        display_short_name_of(Seq::<EmailProviderProperty>::empty()) == None::<Seq<char>>,
        p matches EmailProviderProperty::DisplayShortName(x) ==> display_short_name_of(props.push(p)) == (if display_short_name_of(props) is Some {
            display_short_name_of(props)
        } else {
            Some(x@)
        }),
        !(p is DisplayShortName) ==> display_short_name_of(props.push(p)) == display_short_name_of(props),
{
    lemma_first_push(props, p, |q: EmailProviderProperty| property_display_short_name(q));
}

/// The documentation is that of the first `Documentation` entry.
pub proof fn lemma_documentation_law(props: Seq<EmailProviderProperty>, p: EmailProviderProperty)
    ensures
        documentation_of(Seq::<EmailProviderProperty>::empty()) == None::<Documentation>,
        p matches EmailProviderProperty::Documentation(x) ==> documentation_of(props.push(p)) == (if documentation_of(props) is Some {
            documentation_of(props)
        } else {
            Some(x)
        }),
        !(p is Documentation) ==> documentation_of(props.push(p)) == documentation_of(props),
{
    lemma_first_push(props, p, |q: EmailProviderProperty| property_documentation(q));
}

impl EmailProvider {
    pub closed spec fn id_spec(&self) -> Seq<char> {
        self.id@
    }

    pub closed spec fn properties_spec(&self) -> Seq<EmailProviderProperty> {
        self.properties@
    }

    pub fn new(id: String, properties: Vec<EmailProviderProperty>) -> (r: Self)
        ensures
            r.id_spec() == id@,
            r.properties_spec() == properties@,
    {
        EmailProvider { id, properties }
    }

    pub fn properties(&self) -> (r: &Vec<EmailProviderProperty>)
        ensures
            r@ == self.properties_spec(),
    {
        &self.properties
    }

    pub fn id(&self) -> (r: &str)
        ensures
            r@ == self.id_spec(),
    {
        self.id.as_str()
    }

    pub fn domain(&self) -> (r: Vec<&str>)
        ensures
            str_views(r@) == domains_of(self.properties_spec()),
    {
        let ghost props = self.properties@;
        let ghost f = |p: EmailProviderProperty| property_domain(p);
        let mut domains: Vec<&str> = Vec::new();
        let mut i: usize = 0;
        while i < self.properties.len()
            invariant
                props == self.properties@,
                f == (|p: EmailProviderProperty| property_domain(p)),
                i <= props.len(),
                str_views(domains@) == collect_some(props.take(i as int), f),
            decreases props.len() - i,
        {
            proof {
                lemma_prefix_step(props, i as int);
            }
            let ghost before = str_views(domains@);
            if let EmailProviderProperty::Domain(domain) = &self.properties[i] {
                domains.push(domain.as_str());
                assert(str_views(domains@) =~= before.push(domain@));
            }
            i = i + 1;
        }
        assert(props.take(props.len() as int) =~= props);
        domains
    }

    pub fn display_name(&self) -> (r: Option<&str>)
        ensures
            opt_str_view(r) == display_name_of(self.properties_spec()),
    {
        let ghost props = self.properties@;
        let ghost f = |p: EmailProviderProperty| property_display_name(p);
        let mut i: usize = 0;
        while i < self.properties.len()
            invariant
                props == self.properties@,
                f == (|p: EmailProviderProperty| property_display_name(p)),
                i <= props.len(),
                first_some(props.take(i as int), f) is None,
            decreases props.len() - i,
        {
            proof {
                lemma_prefix_step(props, i as int);
            }
            if let EmailProviderProperty::DisplayName(display_name) = &self.properties[i] {
                proof {
                    assert(props.take(i + 1) + props.skip(i + 1) =~= props);
                    lemma_first_some_extend(props.take(i + 1), props.skip(i + 1), f);
                }
                return Some(display_name.as_str());
            }
            i = i + 1;
        }
        assert(props.take(props.len() as int) =~= props);
        None
    }

    pub fn display_short_name(&self) -> (r: Option<&str>)
        ensures
            opt_str_view(r) == display_short_name_of(self.properties_spec()),
    {
        let ghost props = self.properties@;
        let ghost f = |p: EmailProviderProperty| property_display_short_name(p);
        let mut i: usize = 0;
        while i < self.properties.len()
            invariant
                props == self.properties@,
                f == (|p: EmailProviderProperty| property_display_short_name(p)),
                i <= props.len(),
                first_some(props.take(i as int), f) is None,
            decreases props.len() - i,
        {
            proof {
                lemma_prefix_step(props, i as int);
            }
            if let EmailProviderProperty::DisplayShortName(short_name) = &self.properties[i] {
                proof {
                    assert(props.take(i + 1) + props.skip(i + 1) =~= props);
                    lemma_first_some_extend(props.take(i + 1), props.skip(i + 1), f);
                }
                return Some(short_name.as_str());
            }
            i = i + 1;
        }
        assert(props.take(props.len() as int) =~= props);
        None
    }

    pub fn incoming_servers(&self) -> (r: Vec<&Server>)
        ensures
            deref_all(r@) == incoming_servers_of(self.properties_spec()),
    {
        let ghost props = self.properties@;
        let ghost f = |p: EmailProviderProperty| property_incoming_server(p);
        let mut servers: Vec<&Server> = Vec::new();
        let mut i: usize = 0;
        while i < self.properties.len()
            invariant
                props == self.properties@,
                f == (|p: EmailProviderProperty| property_incoming_server(p)),
                i <= props.len(),
                deref_all(servers@) == collect_some(props.take(i as int), f),
            decreases props.len() - i,
        {
            proof {
                lemma_prefix_step(props, i as int);
            }
            let ghost before = deref_all(servers@);
            if let EmailProviderProperty::IncomingServer(server) = &self.properties[i] {
                servers.push(server);
                assert(deref_all(servers@) =~= before.push(*server));
            }
            i = i + 1;
        }
        assert(props.take(props.len() as int) =~= props);
        servers
    }

    pub fn outgoing_servers(&self) -> (r: Vec<&Server>)
        ensures
            deref_all(r@) == outgoing_servers_of(self.properties_spec()),
    {
        let ghost props = self.properties@;
        let ghost f = |p: EmailProviderProperty| property_outgoing_server(p);
        let mut servers: Vec<&Server> = Vec::new();
        let mut i: usize = 0;
        while i < self.properties.len()
            invariant
                props == self.properties@,
                f == (|p: EmailProviderProperty| property_outgoing_server(p)),
                i <= props.len(),
                deref_all(servers@) == collect_some(props.take(i as int), f),
            decreases props.len() - i,
        {
            proof {
                lemma_prefix_step(props, i as int);
            }
            let ghost before = deref_all(servers@);
            if let EmailProviderProperty::OutgoingServer(server) = &self.properties[i] {
                servers.push(server);
                assert(deref_all(servers@) =~= before.push(*server));
            }
            i = i + 1;
        }
        assert(props.take(props.len() as int) =~= props);
        servers
    }

    pub fn servers(&self) -> (r: Vec<&Server>)
        ensures
            deref_all(r@) == servers_of(self.properties_spec()),
    {
        let ghost props = self.properties@;
        let ghost f = |p: EmailProviderProperty| property_server(p);
        let mut servers: Vec<&Server> = Vec::new();
        let mut i: usize = 0;
        while i < self.properties.len()
            invariant
                props == self.properties@,
                f == (|p: EmailProviderProperty| property_server(p)),
                i <= props.len(),
                deref_all(servers@) == collect_some(props.take(i as int), f),
            decreases props.len() - i,
        {
            proof {
                lemma_prefix_step(props, i as int);
            }
            let ghost before = deref_all(servers@);
            match &self.properties[i] {
                EmailProviderProperty::IncomingServer(server) => {
                    servers.push(server);
                    assert(deref_all(servers@) =~= before.push(*server));
                },
                EmailProviderProperty::OutgoingServer(server) => {
                    servers.push(server);
                    assert(deref_all(servers@) =~= before.push(*server));
                },
                _ => {},
            }
            i = i + 1;
        }
        assert(props.take(props.len() as int) =~= props);
        servers
    }

    pub fn documentation(&self) -> (r: Option<&Documentation>)
        ensures
            deref_opt(r) == documentation_of(self.properties_spec()),
    {
        let ghost props = self.properties@;
        let ghost f = |p: EmailProviderProperty| property_documentation(p);
        let mut i: usize = 0;
        while i < self.properties.len()
            invariant
                props == self.properties@,
                f == (|p: EmailProviderProperty| property_documentation(p)),
                i <= props.len(),
                first_some(props.take(i as int), f) is None,
            decreases props.len() - i,
        {
            proof {
                lemma_prefix_step(props, i as int);
            }
            if let EmailProviderProperty::Documentation(documentation) = &self.properties[i] {
                proof {
                    assert(props.take(i + 1) + props.skip(i + 1) =~= props);
                    lemma_first_some_extend(props.take(i + 1), props.skip(i + 1), f);
                }
                return Some(documentation);
            }
            i = i + 1;
        }
        assert(props.take(props.len() as int) =~= props);
        None
    }
}

/// An incoming or outgoing server of a provider: its protocol and the list of
/// what the document says of it.
#[derive(Debug, PartialEq)]
pub struct Server {
    server_type: ServerType,
    properties: Vec<ServerProperty>,
}

/// One entry of a server's description.
#[derive(Debug, PartialEq)]
pub enum ServerProperty {
    Hostname(String),
    Port(u16),
    SocketType(SecurityType),
    Authentication(AuthenticationType),
    OwaURL(String),
    EwsURL(String),
    UseGlobalPreferredServer(bool),
    Pop3(Pop3Config),
    Username(String),
    Password(String),
}

/// How the connection to a server is secured.
#[derive(Debug, PartialEq, Eq, Clone, Copy)]
pub enum SecurityType {
    Plain,
    Starttls,
    Tls,
}

/// The protocol a server speaks.
#[derive(Debug, PartialEq, Eq, Clone, Copy)]
pub enum ServerType {
    Exchange,
    Imap,
    Pop3,
    Smtp,
}

/// A way a server accepts to authenticate a user.
#[derive(Debug, PartialEq, Eq, Clone, Copy)]
pub enum AuthenticationType {
    PasswordCleartext,
    PasswordEncrypted,
    Ntlm,
    GsApi,
    ClientIPAddress,
    TlsClientCert,
    OAuth2,
    NoAuthentication,
}

pub open spec fn server_property_hostname(p: ServerProperty) -> Option<Seq<char>> {
    match p {
        ServerProperty::Hostname(h) => Some(h@),
        _ => None,
    }
}

pub open spec fn server_property_port(p: ServerProperty) -> Option<u16> {
    match p {
        ServerProperty::Port(n) => Some(n),
        _ => None,
    }
}

pub open spec fn server_property_socket_type(p: ServerProperty) -> Option<SecurityType> {
    match p {
        ServerProperty::SocketType(t) => Some(t),
        _ => None,
    }
}

pub open spec fn server_property_authentication(p: ServerProperty) -> Option<AuthenticationType> {
    match p {
        ServerProperty::Authentication(a) => Some(a),
        _ => None,
    }
}

pub open spec fn server_property_username(p: ServerProperty) -> Option<Seq<char>> {
    match p {
        ServerProperty::Username(u) => Some(u@),
        _ => None,
    }
}

pub open spec fn server_property_password(p: ServerProperty) -> Option<Seq<char>> {
    match p {
        ServerProperty::Password(pw) => Some(pw@),
        _ => None,
    }
}

/// The first host name given.
pub open spec fn hostname_of(props: Seq<ServerProperty>) -> Option<Seq<char>> {
    first_some(props, |p: ServerProperty| server_property_hostname(p))
}

/// The first port given.
pub open spec fn port_of(props: Seq<ServerProperty>) -> Option<u16> {
    first_some(props, |p: ServerProperty| server_property_port(p))
}

/// The first socket type given.
pub open spec fn security_type_of(props: Seq<ServerProperty>) -> Option<SecurityType> {
    first_some(props, |p: ServerProperty| server_property_socket_type(p))
}

/// Every authentication type given, in document order.
pub open spec fn authentication_types_of(props: Seq<ServerProperty>) -> Seq<AuthenticationType> {
    collect_some(props, |p: ServerProperty| server_property_authentication(p))
}

/// The first user name given.
pub open spec fn username_of(props: Seq<ServerProperty>) -> Option<Seq<char>> {
    first_some(props, |p: ServerProperty| server_property_username(p))
}

/// The first password given.
pub open spec fn password_of(props: Seq<ServerProperty>) -> Option<Seq<char>> {
    first_some(props, |p: ServerProperty| server_property_password(p))
}

/// The host name of a server is that of its first `Hostname` entry.
pub proof fn lemma_hostname_law(props: Seq<ServerProperty>, p: ServerProperty)
    ensures
        hostname_of(Seq::<ServerProperty>::empty()) == None::<Seq<char>>,
        p matches ServerProperty::Hostname(x) ==> hostname_of(props.push(p)) == (if hostname_of(props) is Some {
            hostname_of(props)
        } else {
            Some(x@)
        }),
        !(p is Hostname) ==> hostname_of(props.push(p)) == hostname_of(props),
{
    lemma_first_push(props, p, |q: ServerProperty| server_property_hostname(q));
}

/// The port of a server is that of its first `Port` entry.
pub proof fn lemma_port_law(props: Seq<ServerProperty>, p: ServerProperty)
    ensures
        port_of(Seq::<ServerProperty>::empty()) == None::<u16>,
        p matches ServerProperty::Port(x) ==> port_of(props.push(p)) == (if port_of(props) is Some {
            port_of(props)
        } else {
            Some(x)
        }),
        !(p is Port) ==> port_of(props.push(p)) == port_of(props),
{
    lemma_first_push(props, p, |q: ServerProperty| server_property_port(q));
}

/// The security type of a server is that of its first `SocketType` entry.
pub proof fn lemma_security_type_law(props: Seq<ServerProperty>, p: ServerProperty)
    ensures
        security_type_of(Seq::<ServerProperty>::empty()) == None::<SecurityType>,
        p matches ServerProperty::SocketType(x) ==> security_type_of(props.push(p)) == (if security_type_of(props) is Some {
            security_type_of(props)
        } else {
            Some(x)
        }),
        !(p is SocketType) ==> security_type_of(props.push(p)) == security_type_of(props),
{
    lemma_first_push(props, p, |q: ServerProperty| server_property_socket_type(q));
}

/// The user name of a server is that of its first `Username` entry.
pub proof fn lemma_username_law(props: Seq<ServerProperty>, p: ServerProperty)
    ensures
        username_of(Seq::<ServerProperty>::empty()) == None::<Seq<char>>,
        p matches ServerProperty::Username(x) ==> username_of(props.push(p)) == (if username_of(props) is Some {
            username_of(props)
        } else {
            Some(x@)
        }),
        !(p is Username) ==> username_of(props.push(p)) == username_of(props),
{
    lemma_first_push(props, p, |q: ServerProperty| server_property_username(q));
}

/// The password of a server is that of its first `Password` entry.
pub proof fn lemma_password_law(props: Seq<ServerProperty>, p: ServerProperty)
    ensures
        password_of(Seq::<ServerProperty>::empty()) == None::<Seq<char>>,
        p matches ServerProperty::Password(x) ==> password_of(props.push(p)) == (if password_of(props) is Some {
            password_of(props)
        } else {
            Some(x@)
        }),
        !(p is Password) ==> password_of(props.push(p)) == password_of(props),
{
    lemma_first_push(props, p, |q: ServerProperty| server_property_password(q));
}

/// The authentication types of a server are those of all its `Authentication`
/// entries, whatever the type, in document order; no other entry adds one.
pub proof fn lemma_authentication_types_law(props: Seq<ServerProperty>, p: ServerProperty)
    ensures
        authentication_types_of(Seq::<ServerProperty>::empty()) == Seq::<AuthenticationType>::empty(),
        p matches ServerProperty::Authentication(a) ==> authentication_types_of(props.push(p))
            == authentication_types_of(props).push(a),
        !(p is Authentication) ==> authentication_types_of(props.push(p)) == authentication_types_of(
            props,
        ),
{
    lemma_collect_push(props, p, |q: ServerProperty| server_property_authentication(q));
}

impl Server {
    pub closed spec fn server_type_spec(&self) -> ServerType {
        self.server_type
    }

    pub closed spec fn properties_spec(&self) -> Seq<ServerProperty> {
        self.properties@
    }

    pub fn new(server_type: ServerType, properties: Vec<ServerProperty>) -> (r: Self)
        ensures
            r.server_type_spec() == server_type,
            r.properties_spec() == properties@,
    {
        Server { server_type, properties }
    }

    pub fn properties(&self) -> (r: &Vec<ServerProperty>)
        ensures
            r@ == self.properties_spec(),
    {
        &self.properties
    }

    pub fn server_type(&self) -> (r: &ServerType)
        ensures
            *r == self.server_type_spec(),
    {
        &self.server_type
    }

    pub fn hostname(&self) -> (r: Option<&str>)
        ensures
            opt_str_view(r) == hostname_of(self.properties_spec()),
    {
        let ghost props = self.properties@;
        let ghost f = |p: ServerProperty| server_property_hostname(p);
        let mut i: usize = 0;
        while i < self.properties.len()
            invariant
                props == self.properties@,
                f == (|p: ServerProperty| server_property_hostname(p)),
                i <= props.len(),
                first_some(props.take(i as int), f) is None,
            decreases props.len() - i,
        {
            proof {
                lemma_prefix_step(props, i as int);
            }
            if let ServerProperty::Hostname(hostname) = &self.properties[i] {
                proof {
                    assert(props.take(i + 1) + props.skip(i + 1) =~= props);
                    lemma_first_some_extend(props.take(i + 1), props.skip(i + 1), f);
                }
                return Some(hostname.as_str());
            }
            i = i + 1;
        }
        assert(props.take(props.len() as int) =~= props);
        None
    }

    pub fn port(&self) -> (r: Option<&u16>)
        ensures
            deref_opt(r) == port_of(self.properties_spec()),
    {
        let ghost props = self.properties@;
        let ghost f = |p: ServerProperty| server_property_port(p);
        let mut i: usize = 0;
        while i < self.properties.len()
            invariant
                props == self.properties@,
                f == (|p: ServerProperty| server_property_port(p)),
                i <= props.len(),
                first_some(props.take(i as int), f) is None,
            decreases props.len() - i,
        {
            proof {
                lemma_prefix_step(props, i as int);
            }
            if let ServerProperty::Port(port) = &self.properties[i] {
                proof {
                    assert(props.take(i + 1) + props.skip(i + 1) =~= props);
                    lemma_first_some_extend(props.take(i + 1), props.skip(i + 1), f);
                }
                return Some(port);
            }
            i = i + 1;
        }
        assert(props.take(props.len() as int) =~= props);
        None
    }

    pub fn security_type(&self) -> (r: Option<&SecurityType>)
        ensures
            deref_opt(r) == security_type_of(self.properties_spec()),
    {
        let ghost props = self.properties@;
        let ghost f = |p: ServerProperty| server_property_socket_type(p);
        let mut i: usize = 0;
        while i < self.properties.len()
            invariant
                props == self.properties@,
                f == (|p: ServerProperty| server_property_socket_type(p)),
                i <= props.len(),
                first_some(props.take(i as int), f) is None,
            decreases props.len() - i,
        {
            proof {
                lemma_prefix_step(props, i as int);
            }
            if let ServerProperty::SocketType(socket_type) = &self.properties[i] {
                proof {
                    assert(props.take(i + 1) + props.skip(i + 1) =~= props);
                    lemma_first_some_extend(props.take(i + 1), props.skip(i + 1), f);
                }
                return Some(socket_type);
            }
            i = i + 1;
        }
        assert(props.take(props.len() as int) =~= props);
        None
    }

    pub fn authentication_type(&self) -> (r: Vec<&AuthenticationType>)
        ensures
            deref_all(r@) == authentication_types_of(self.properties_spec()),
    {
        let ghost props = self.properties@;
        let ghost f = |p: ServerProperty| server_property_authentication(p);
        let mut types: Vec<&AuthenticationType> = Vec::new();
        let mut i: usize = 0;
        while i < self.properties.len()
            invariant
                props == self.properties@,
                f == (|p: ServerProperty| server_property_authentication(p)),
                i <= props.len(),
                deref_all(types@) == collect_some(props.take(i as int), f),
            decreases props.len() - i,
        {
            proof {
                lemma_prefix_step(props, i as int);
            }
            let ghost before = deref_all(types@);
            if let ServerProperty::Authentication(authentication_type) = &self.properties[i] {
                types.push(authentication_type);
                assert(deref_all(types@) =~= before.push(*authentication_type));
            }
            i = i + 1;
        }
        assert(props.take(props.len() as int) =~= props);
        types
    }

    pub fn username(&self) -> (r: Option<&str>)
        ensures
            opt_str_view(r) == username_of(self.properties_spec()),
    {
        let ghost props = self.properties@;
        let ghost f = |p: ServerProperty| server_property_username(p);
        let mut i: usize = 0;
        while i < self.properties.len()
            invariant
                props == self.properties@,
                f == (|p: ServerProperty| server_property_username(p)),
                i <= props.len(),
                first_some(props.take(i as int), f) is None,
            decreases props.len() - i,
        {
            proof {
                lemma_prefix_step(props, i as int);
            }
            if let ServerProperty::Username(username) = &self.properties[i] {
                proof {
                    assert(props.take(i + 1) + props.skip(i + 1) =~= props);
                    lemma_first_some_extend(props.take(i + 1), props.skip(i + 1), f);
                }
                return Some(username.as_str());
            }
            i = i + 1;
        }
        assert(props.take(props.len() as int) =~= props);
        None
    }

    pub fn password(&self) -> (r: Option<&str>)
        ensures
            opt_str_view(r) == password_of(self.properties_spec()),
    {
        let ghost props = self.properties@;
        let ghost f = |p: ServerProperty| server_property_password(p);
        let mut i: usize = 0;
        while i < self.properties.len()
            invariant
                props == self.properties@,
                f == (|p: ServerProperty| server_property_password(p)),
                i <= props.len(),
                first_some(props.take(i as int), f) is None,
            decreases props.len() - i,
        {
            proof {
                lemma_prefix_step(props, i as int);
            }
            if let ServerProperty::Password(password) = &self.properties[i] {
                proof {
                    assert(props.take(i + 1) + props.skip(i + 1) =~= props);
                    lemma_first_some_extend(props.take(i + 1), props.skip(i + 1), f);
                }
                return Some(password.as_str());
            }
            i = i + 1;
        }
        assert(props.take(props.len() as int) =~= props);
        None
    }
}

/// Number of seconds in a day.
pub const SECONDS_PER_DAY: u64 = 86400;

/// Number of seconds in a minute.
pub const SECONDS_PER_MINUTE: u64 = 60;

/// A day has 24 hours of 60 minutes of 60 seconds.
pub proof fn lemma_time_units()
    ensures
        SECONDS_PER_MINUTE == 60,
        SECONDS_PER_DAY == 24 * 60 * SECONDS_PER_MINUTE,
{
}

/// Names the duration that `std::time::Duration::from_secs` returns for `secs`.
pub uninterp spec fn duration_of_secs(secs: u64) -> std::time::Duration;

/// Calls `std::time::Duration::from_secs`. The contract states only that the
/// result is the duration named for `secs`; that it measures exactly `secs`
/// whole seconds is what std documents and is left to it.
#[verifier::external_body]
fn duration_from_secs(secs: u64) -> (d: std::time::Duration)
    ensures
        d == duration_of_secs(secs),
{
    std::time::Duration::from_secs(secs)
}

/// How often to look for new mail on a POP3 server.
#[derive(Debug, PartialEq)]
struct CheckInterval {
    minutes: Option<u64>,
}

/// POP3 specific settings.
#[derive(Debug, PartialEq)]
pub struct Pop3Config {
    leave_messages_on_server: bool,
    download_on_biff: Option<bool>,
    days_to_leave_messages_on_server: Option<u64>,
    check_interval: Option<CheckInterval>,
}

impl Pop3Config {
    pub closed spec fn leave_messages_on_server_spec(&self) -> bool {
        self.leave_messages_on_server
    }

    pub closed spec fn download_on_biff_spec(&self) -> Option<bool> {
        self.download_on_biff
    }

    pub closed spec fn days_to_leave_spec(&self) -> Option<u64> {
        self.days_to_leave_messages_on_server
    }

    /// `None` when no check interval is given, `Some(m)` when one is given
    /// with minutes `m` (which may be absent).
    pub closed spec fn check_interval_spec(&self) -> Option<Option<u64>> {
        match self.check_interval {
            Some(ci) => Some(ci.minutes),
            None => None,
        }
    }

    pub fn new(
        leave_messages_on_server: bool,
        download_on_biff: Option<bool>,
        days_to_leave_messages_on_server: Option<u64>,
        check_interval: Option<Option<u64>>,
    ) -> (r: Self)
        ensures
            r.leave_messages_on_server_spec() == leave_messages_on_server,
            r.download_on_biff_spec() == download_on_biff,
            r.days_to_leave_spec() == days_to_leave_messages_on_server,
            r.check_interval_spec() == check_interval,
    {
        let check_interval = match check_interval {
            Some(minutes) => Some(CheckInterval { minutes }),
            None => None,
        };
        Pop3Config {
            leave_messages_on_server,
            download_on_biff,
            days_to_leave_messages_on_server,
            check_interval,
        }
    }

    pub fn leave_messages_on_server(&self) -> (r: &bool)
        ensures
            *r == self.leave_messages_on_server_spec(),
    {
        &self.leave_messages_on_server
    }

    pub fn download_on_biff(&self) -> (r: Option<&bool>)
        ensures
            deref_opt(r) == self.download_on_biff_spec(),
    {
        match &self.download_on_biff {
            Some(b) => Some(b),
            None => None,
        }
    }

    /// The number of days, as the document gives it.
    pub fn days_to_leave_messages_on_server(&self) -> (r: Option<u64>)
        ensures
            r == self.days_to_leave_spec(),
    {
        self.days_to_leave_messages_on_server
    }

    /// The check interval, as the document gives it (see `check_interval_spec`).
    pub fn check_interval_minutes(&self) -> (r: Option<Option<u64>>)
        ensures
            r == self.check_interval_spec(),
    {
        match &self.check_interval {
            Some(ci) => Some(ci.minutes),
            None => None,
        }
    }

    /// How long messages stay on the server: the given number of days, in
    /// seconds.
    pub fn time_to_leave_messages_on_server(&self) -> (r: Option<std::time::Duration>)
        requires
            self.days_to_leave_spec() matches Some(days) ==> days * SECONDS_PER_DAY <= u64::MAX,
        ensures
            r == (match self.days_to_leave_spec() {
                Some(days) => Some(duration_of_secs((days * SECONDS_PER_DAY) as u64)),
                None => None,
            }),
    {
        match self.days_to_leave_messages_on_server {
            Some(days) => Some(duration_from_secs(days * SECONDS_PER_DAY)),
            None => None,
        }
    }

    /// How often to check for mail: the given number of minutes, in seconds;
    /// `None` when no interval or no minutes are given.
    pub fn check_interval(&self) -> (r: Option<std::time::Duration>)
        requires
            self.check_interval_spec() matches Some(Some(minutes)) ==> minutes * SECONDS_PER_MINUTE
                <= u64::MAX,
        ensures
            r == (match self.check_interval_spec() {
                Some(Some(minutes)) => Some(duration_of_secs((minutes * SECONDS_PER_MINUTE) as u64)),
                _ => None,
            }),
    {
        match &self.check_interval {
            Some(interval) => {
                if let Some(minutes) = interval.minutes {
                    return Some(duration_from_secs(minutes * SECONDS_PER_MINUTE));
                }
                None
            },
            None => None,
        }
    }
}

/// Where a provider documents its settings, with descriptions of the page.
#[derive(Debug, PartialEq)]
pub struct Documentation {
    url: String,
    properties: Vec<DocumentationDescription>,
}

impl Documentation {
    pub closed spec fn url_spec(&self) -> Seq<char> {
        self.url@
    }

    pub closed spec fn properties_spec(&self) -> Seq<DocumentationDescription> {
        self.properties@
    }

    pub fn new(url: String, properties: Vec<DocumentationDescription>) -> (r: Self)
        ensures
            r.url_spec() == url@,
            r.properties_spec() == properties@,
    {
        Documentation { url, properties }
    }

    pub fn url(&self) -> (r: &str)
        ensures
            r@ == self.url_spec(),
    {
        self.url.as_str()
    }

    pub fn properties(&self) -> (r: &Vec<DocumentationDescription>)
        ensures
            r@ == self.properties_spec(),
    {
        &self.properties
    }
}

/// A description of a documentation page, in a language where one is given.
#[derive(Debug, PartialEq)]
pub struct DocumentationDescription {
    lang: Option<String>,
    description: String,
}

impl DocumentationDescription {
    pub closed spec fn language_spec(&self) -> Option<Seq<char>> {
        match self.lang {
            Some(l) => Some(l@),
            None => None,
        }
    }

    pub closed spec fn description_spec(&self) -> Seq<char> {
        self.description@
    }

    pub fn new(lang: Option<String>, description: String) -> (r: Self)
        ensures
            r.language_spec() == (match lang {
                Some(l) => Some(l@),
                None => None,
            }),
            r.description_spec() == description@,
    {
        DocumentationDescription { lang, description }
    }

    pub fn language(&self) -> (r: Option<&str>)
        ensures
            opt_str_view(r) == self.language_spec(),
    {
        match &self.lang {
            Some(l) => Some(l.as_str()),
            None => None,
        }
    }

    pub fn description(&self) -> (r: &str)
        ensures
            r@ == self.description_spec(),
    {
        self.description.as_str()
    }
}

} // verus!
