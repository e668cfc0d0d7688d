use std::time::Duration;

use bichon_autoconfig::mozilla_config::{
    AuthenticationType, Config, Documentation, DocumentationDescription, EmailProvider,
    EmailProviderProperty, OAuth2Config, Pop3Config, SecurityType, Server, ServerProperty,
    ServerType,
};

fn s(text: &str) -> String {
    text.to_string()
}

fn imap_server() -> Server {
    Server::new(
        ServerType::Imap,
        vec![
            ServerProperty::Hostname(s("imap.example.com")),
            ServerProperty::Port(993),
            ServerProperty::SocketType(SecurityType::Tls),
            ServerProperty::Authentication(AuthenticationType::PasswordCleartext),
            ServerProperty::Authentication(AuthenticationType::OAuth2),
            ServerProperty::Username(s("%EMAILADDRESS%")),
            ServerProperty::Hostname(s("second.example.com")),
            ServerProperty::Port(143),
        ],
    )
}

fn smtp_server() -> Server {
    Server::new(
        ServerType::Smtp,
        vec![
            ServerProperty::Hostname(s("smtp.example.com")),
            ServerProperty::Port(465),
            ServerProperty::SocketType(SecurityType::Starttls),
            ServerProperty::Authentication(AuthenticationType::NoAuthentication),
            ServerProperty::Password(s("secret")),
        ],
    )
}

fn pop3_server() -> Server {
    Server::new(
        ServerType::Pop3,
        vec![
            ServerProperty::Hostname(s("pop.example.com")),
            ServerProperty::Pop3(Pop3Config::new(true, Some(false), Some(14), Some(Some(10)))),
        ],
    )
}

fn documentation() -> Documentation {
    Documentation::new(
        s("https://example.com/help"),
        vec![
            DocumentationDescription::new(Some(s("en")), s("Setup guide")),
            DocumentationDescription::new(None, s("Anleitung")),
        ],
    )
}

fn provider() -> EmailProvider {
    EmailProvider::new(
        s("example.com"),
        vec![
            EmailProviderProperty::Domain(s("example.com")),
            EmailProviderProperty::DisplayName(s("Example Mail")),
            EmailProviderProperty::IncomingServer(imap_server()),
            EmailProviderProperty::Domain(s("example.org")),
            EmailProviderProperty::OutgoingServer(smtp_server()),
            EmailProviderProperty::DisplayShortName(s("Example")),
            EmailProviderProperty::IncomingServer(pop3_server()),
            EmailProviderProperty::DisplayName(s("Second Name")),
            EmailProviderProperty::Documentation(documentation()),
        ],
    )
}

fn config() -> Config {
    Config::new(
        s("1.1"),
        provider(),
        Some(OAuth2Config::new(
            s("accounts.example.com"),
            s("mail profile openid"),
            s("https://accounts.example.com/auth"),
            s("https://accounts.example.com/token"),
        )),
    )
}

#[test]
fn config_getters_give_back_the_fields() {
    let c = config();
    assert_eq!(c.version(), "1.1");
    assert_eq!(c.email_provider(), &provider());
    let o = c.oauth2().expect("oauth2 section");
    assert_eq!(o.issuer(), "accounts.example.com");
    assert_eq!(o.auth_url(), "https://accounts.example.com/auth");
    assert_eq!(o.token_url(), "https://accounts.example.com/token");
    let without = Config::new(s("1.1"), provider(), None);
    assert!(without.oauth2().is_none());
}

#[test]
fn scope_splits_at_single_spaces() {
    let c = config();
    assert_eq!(c.oauth2().unwrap().scope(), vec!["mail", "profile", "openid"]);
    let odd = OAuth2Config::new(s("i"), s(" a  b "), s("u"), s("t"));
    assert_eq!(odd.scope(), vec!["", "a", "", "b", ""]);
    let empty = OAuth2Config::new(s("i"), s(""), s("u"), s("t"));
    assert_eq!(empty.scope(), vec![""]);
}

#[test]
fn scope_pieces_joined_give_back_the_scope() {
    for scope in ["mail profile openid", " a  b ", "", "single"] {
        let o = OAuth2Config::new(s("i"), s(scope), s("u"), s("t"));
        let pieces = o.scope();
        assert_eq!(pieces.join(" "), scope);
        assert!(pieces.iter().all(|p| !p.contains(' ')));
    }
}

#[test]
fn provider_lists_and_first_entries() {
    let p = provider();
    assert_eq!(p.id(), "example.com");
    assert_eq!(p.properties().len(), 9);
    assert_eq!(p.domain(), vec!["example.com", "example.org"]);
    assert_eq!(p.display_name(), Some("Example Mail"));
    assert_eq!(p.display_short_name(), Some("Example"));
    let incoming = p.incoming_servers();
    assert_eq!(incoming, vec![&imap_server(), &pop3_server()]);
    assert_eq!(p.outgoing_servers(), vec![&smtp_server()]);
    assert_eq!(p.servers(), vec![&imap_server(), &smtp_server(), &pop3_server()]);
    assert_eq!(p.documentation(), Some(&documentation()));
}

#[test]
fn servers_are_the_incoming_and_the_outgoing_ones() {
    let p = provider();
    let all = p.servers();
    let incoming = p.incoming_servers();
    let outgoing = p.outgoing_servers();
    assert_eq!(all.len(), incoming.len() + outgoing.len());
    for server in incoming.iter().chain(outgoing.iter()) {
        assert!(all.contains(server));
    }
}

#[test]
fn empty_provider_has_nothing() {
    let p = EmailProvider::new(s("none"), vec![]);
    assert!(p.domain().is_empty());
    assert_eq!(p.display_name(), None);
    assert_eq!(p.display_short_name(), None);
    assert!(p.incoming_servers().is_empty());
    assert!(p.outgoing_servers().is_empty());
    assert!(p.servers().is_empty());
    assert!(p.documentation().is_none());
}

#[test]
fn server_getters_take_the_first_entry() {
    let imap = imap_server();
    assert_eq!(imap.server_type(), &ServerType::Imap);
    assert_eq!(imap.properties().len(), 8);
    assert_eq!(imap.hostname(), Some("imap.example.com"));
    assert_eq!(imap.port(), Some(&993));
    assert_eq!(imap.security_type(), Some(&SecurityType::Tls));
    assert_eq!(
        imap.authentication_type(),
        vec![&AuthenticationType::PasswordCleartext, &AuthenticationType::OAuth2]
    );
    assert_eq!(imap.username(), Some("%EMAILADDRESS%"));
    assert_eq!(imap.password(), None);
    let smtp = smtp_server();
    assert_eq!(smtp.password(), Some("secret"));
    assert_eq!(smtp.username(), None);
    assert_eq!(smtp.security_type(), Some(&SecurityType::Starttls));
    assert_eq!(smtp.authentication_type(), vec![&AuthenticationType::NoAuthentication]);
    let bare = Server::new(ServerType::Exchange, vec![ServerProperty::UseGlobalPreferredServer(true)]);
    assert_eq!(bare.hostname(), None);
    assert_eq!(bare.port(), None);
    assert_eq!(bare.security_type(), None);
    assert!(bare.authentication_type().is_empty());
}

#[test]
fn pop3_durations() {
    let pop = Pop3Config::new(true, Some(false), Some(14), Some(Some(10)));
    assert_eq!(pop.leave_messages_on_server(), &true);
    assert_eq!(pop.download_on_biff(), Some(&false));
    assert_eq!(pop.days_to_leave_messages_on_server(), Some(14));
    assert_eq!(pop.check_interval_minutes(), Some(Some(10)));
    assert_eq!(pop.time_to_leave_messages_on_server(), Some(Duration::from_secs(14 * 86400)));
    assert_eq!(pop.check_interval(), Some(Duration::from_secs(600)));
}

#[test]
fn pop3_absent_values() {
    let pop = Pop3Config::new(false, None, None, Some(None));
    assert_eq!(pop.download_on_biff(), None);
    assert_eq!(pop.time_to_leave_messages_on_server(), None);
    assert_eq!(pop.check_interval(), None);
    let no_interval = Pop3Config::new(false, None, Some(0), None);
    assert_eq!(no_interval.check_interval(), None);
    assert_eq!(no_interval.time_to_leave_messages_on_server(), Some(Duration::from_secs(0)));
}

#[test]
fn documentation_getters() {
    let d = documentation();
    assert_eq!(d.url(), "https://example.com/help");
    assert_eq!(d.properties().len(), 2);
    assert_eq!(d.properties()[0].language(), Some("en"));
    assert_eq!(d.properties()[0].description(), "Setup guide");
    assert_eq!(d.properties()[1].language(), None);
    assert_eq!(d.properties()[1].description(), "Anleitung");
}
