use vstd::prelude::*;
use vstd::utf8::{decode_utf8, valid_utf8};

use crate::order::{
    insert_sorted_unique, lemma_strictly_sorted_determined_by_set, lemma_to_set_push,
    strictly_sorted, string_views,
};
use crate::select::{
    collect_some, first_some, lemma_collect_push, lemma_first_some_extend, lemma_first_some_index,
    lemma_prefix_step,
};
use crate::text::{lemma_split_join, lemma_split_nonempty, split_char, split_on};

verus! {

/// What went wrong while looking for a configuration.
#[derive(Debug)]
pub enum ErrorKind {
    Http(reqwest::Error),
    BuildHttpClient,
    InvalidResponse,
    BadInput,
    Resolve(trust_dns_resolver::error::ResolveError),
    NotFound(Vec<AutoconfigError>),
    ParseXml(serde_xml_rs::Error),
}

/// An error of the discovery, with a message for people.
#[derive(Debug)]
pub struct AutoconfigError {
    kind: ErrorKind,
    message: String,
}

impl AutoconfigError {
    pub closed spec fn kind_spec(&self) -> ErrorKind {
        self.kind
    }

    pub closed spec fn message_spec(&self) -> Seq<char> {
        self.message@
    }

    pub fn new(kind: ErrorKind, message: String) -> (r: Self)
        ensures
            r.kind_spec() == kind,
            r.message_spec() == message@,
    {
        AutoconfigError { kind, message }
    }

    pub fn kind(&self) -> (r: &ErrorKind)
        ensures
            *r == self.kind_spec(),
    {
        &self.kind
    }

    pub fn message(&self) -> (r: &str)
        ensures
            r@ == self.message_spec(),
    {
        self.message.as_str()
    }

    /// The text shown for the error: its message.
    pub fn to_string(&self) -> (r: String)
        ensures
            r@ == self.message_spec(),
    {
        self.message.clone()
    }

    /// The error for a failed HTTP exchange.
    pub fn from_http(error: reqwest::Error) -> (r: Self)
        ensures
            r.kind_spec() == ErrorKind::Http(error),
            r.message_spec() == "HTTP request failed"@,
    {
        AutoconfigError::new(ErrorKind::Http(error), String::from_str("HTTP request failed"))
    }

    /// The error for a response that is not a configuration document.
    pub fn from_xml(error: serde_xml_rs::Error) -> (r: Self)
        ensures
            r.kind_spec() == ErrorKind::ParseXml(error),
            r.message_spec() == "Error parsing XML response"@,
    {
        AutoconfigError::new(ErrorKind::ParseXml(error), String::from_str("Error parsing XML response"))
    }

    /// The error for a failed DNS lookup.
    pub fn from_resolve(error: trust_dns_resolver::error::ResolveError) -> (r: Self)
        ensures
            r.kind_spec() == ErrorKind::Resolve(error),
            r.message_spec() == "Error resolving DNS"@,
    {
        AutoconfigError::new(ErrorKind::Resolve(error), String::from_str("Error resolving DNS"))
    }
}

/// The character between the local part and the domain of an address.
pub const AT_SYMBOL: char = '@';

/// The shape an address must have: a local part of lower-case letters, digits,
/// `_`, `+` and inner dots, an `@`, and a dotted domain that ends in a label of
/// two to six letters.
pub const EMAIL_REGEX: &'static str =
    r"^([a-z0-9_+]([a-z0-9_+.]*[a-z0-9_+])?)@([a-z0-9]+([\-\.]{1}[a-z0-9]+)*\.[a-z]{2,6})";

/// The shape of a DNS TXT record that points at a configuration: `mailconf=`
/// followed by an http(s) URL, which group 1 captures.
pub const TXT_RECORD_REGEX: &'static str = r"^mailconf=(https?://\S+)$";

/// Names whether the `regex` crate finds a match of `pattern` in `haystack`
/// (false when `pattern` is not a valid regular expression).
pub uninterp spec fn regex_is_match_result(pattern: Seq<char>, haystack: Seq<char>) -> bool;

/// Compiles `pattern` with `regex::Regex::new` and asks `Regex::is_match` of
/// `haystack`. The contract claims only that the answer is determined by the
/// two texts; what the pattern language means is left to the crate. The
/// patterns this library passes are constants that compile.
#[verifier::external_body]
fn regex_is_match(pattern: &str, haystack: &str) -> (r: bool)
    ensures
        r == regex_is_match_result(pattern@, haystack@),
{
    match regex::Regex::new(pattern) {
        Ok(re) => re.is_match(haystack),
        Err(_) => false,
    }
}

/// Names the text that capture group `group` of `pattern` takes in the first
/// match of `pattern` in `haystack`, as the `regex` crate finds it (`None` when
/// there is no match, the group takes no part in it, or the pattern is invalid).
pub uninterp spec fn regex_capture_result(pattern: Seq<char>, haystack: Seq<char>, group: nat) -> Option<Seq<char>>;

/// Compiles `pattern` with `regex::Regex::new`, calls `Regex::captures` on
/// `haystack` and `Captures::get` with `group`, and copies out the matched text.
/// The contract claims only that the result is determined by its arguments;
/// which text the crate captures is left to it.
#[verifier::external_body]
fn regex_capture(pattern: &str, haystack: &str, group: usize) -> (r: Option<String>)
    ensures
        opt_string_view(r) == regex_capture_result(pattern@, haystack@, group as nat),
{
    match regex::Regex::new(pattern) {
        Ok(re) => match re.captures(haystack) {
            Some(captured) => match captured.get(group) {
                Some(m) => Some(m.as_str().to_string()),
                None => None,
            },
            None => None,
        },
        Err(_) => None,
    }
}

/// Names the scheme that `url::Url::parse` finds in `text` (`None` when the text
/// does not parse as a URL).
pub uninterp spec fn url_scheme_result(text: Seq<char>) -> Option<Seq<char>>;

/// Parses `text` with `url::Url::parse` and copies out `Url::scheme`. The
/// contract claims only that the result is determined by the text.
#[verifier::external_body]
fn url_scheme(text: &str) -> (r: Option<String>)
    ensures
        opt_string_view(r) == url_scheme_result(text@),
{
    match url::Url::parse(text) {
        Ok(parsed) => Some(parsed.scheme().to_string()),
        Err(_) => None,
    }
}

/// Calls `std::str::from_utf8`: the bytes are read as text exactly when they
/// are valid UTF-8, and then the text is what they encode.
#[verifier::external_body]
fn utf8_to_str(bytes: &[u8]) -> (r: Option<&str>)
    ensures
        r is Some <==> valid_utf8(bytes@),
        r matches Some(text) ==> text@ == decode_utf8(bytes@),
{
    std::str::from_utf8(bytes).ok()
}

/// Names the text that `String::from_utf8_lossy` makes of `bytes`.
pub uninterp spec fn utf8_lossy_result(bytes: Seq<u8>) -> Seq<char>;

/// Calls `String::from_utf8_lossy`. Its result is named; of it the contract
/// states what std documents for valid input: the text the bytes encode. What
/// it makes of invalid sequences (replacement characters) is left unsaid.
#[verifier::external_body]
fn utf8_lossy(bytes: &[u8]) -> (r: String)
    ensures
        r@ == utf8_lossy_result(bytes@),
        valid_utf8(bytes@) ==> r@ == decode_utf8(bytes@),
{
    String::from_utf8_lossy(bytes).into_owned()
}

/// The text of an optional string.
pub open spec fn opt_string_view(o: Option<String>) -> Option<Seq<char>> {
    match o {
        Some(s) => Some(s@),
        None => None,
    }
}

/// Whether `unknown` has the shape of an email address.
pub fn validate_email(unknown: &str) -> (r: bool)
    ensures
        r == regex_is_match_result(EMAIL_REGEX@, unknown@),
{
    regex_is_match(EMAIL_REGEX, unknown)
}

/// A text holds a separator exactly when splitting at it gives more than one piece.
pub proof fn lemma_split_len_contains(s: Seq<char>, sep: char)
    ensures
        split_on(s, sep).len() >= 2 <==> s.contains(sep),
    decreases s.len(),
{
    if s.len() > 0 {
        let t = s.drop_last();
        lemma_split_len_contains(t, sep);
        lemma_split_nonempty(t, sep);
        if t.contains(sep) {
            let k = choose|k: int| 0 <= k < t.len() && t[k] == sep;
            assert(s[k] == sep);
        }
        if s.contains(sep) && s.last() != sep {
            let k = choose|k: int| 0 <= k < s.len() && s[k] == sep;
            assert(t[k] == sep);
        }
    }
}

/// The domain of an email address whose shape has been checked (`is_valid`):
/// the text between its first `@` and the next `@` or its end.
pub fn domain_of_checked_addr(is_valid: bool, email_address: &str) -> (r: Result<
    &str,
    AutoconfigError,
>)
    ensures
        !is_valid ==> (r matches Err(e) && e.kind_spec() is BadInput && e.message_spec()
            == "Given email address is invalid"@),
        is_valid && !email_address@.contains(AT_SYMBOL) ==> (r matches Err(e) && e.kind_spec()
            is BadInput && e.message_spec()
            == "An email address must specify a domain after the '@' symbol"@),
        is_valid && email_address@.contains(AT_SYMBOL) ==> (r matches Ok(domain) && domain@
            == split_on(email_address@, AT_SYMBOL)[1]),
        r matches Ok(domain) ==> !domain@.contains(AT_SYMBOL),
{
    if !is_valid {
        return Err(
            AutoconfigError::new(
                ErrorKind::BadInput,
                String::from_str("Given email address is invalid"),
            ),
        );
    }
    let pieces = split_char(email_address, AT_SYMBOL);
    proof {
        lemma_split_len_contains(email_address@, AT_SYMBOL);
        lemma_split_join(email_address@, AT_SYMBOL);
    }
    if pieces.len() < 2 {
        return Err(
            AutoconfigError::new(
                ErrorKind::BadInput,
                String::from_str("An email address must specify a domain after the '@' symbol"),
            ),
        );
    }
    let domain = pieces[1];
    assert(domain@ == split_on(email_address@, AT_SYMBOL)[1]);
    Ok(domain)
}

/// The domain of an email address: the text between its first `@` and the
/// next `@` or its end. The address must first have the shape `EMAIL_REGEX`
/// describes.
pub fn domain_from_addr(email_address: &str) -> (r: Result<&str, AutoconfigError>)
    ensures
        !regex_is_match_result(EMAIL_REGEX@, email_address@) ==> (r matches Err(e) && e.kind_spec()
            is BadInput && e.message_spec() == "Given email address is invalid"@),
        regex_is_match_result(EMAIL_REGEX@, email_address@) && !email_address@.contains(AT_SYMBOL)
            ==> (r matches Err(e) && e.kind_spec() is BadInput && e.message_spec()
            == "An email address must specify a domain after the '@' symbol"@),
        regex_is_match_result(EMAIL_REGEX@, email_address@) && email_address@.contains(AT_SYMBOL)
            ==> (r matches Ok(domain) && domain@ == split_on(email_address@, AT_SYMBOL)[1]),
        r matches Ok(domain) ==> !domain@.contains(AT_SYMBOL),
{
    domain_of_checked_addr(validate_email(email_address), email_address)
}

/// The three places where a configuration for `domain` is conventionally
/// published: the provider's autoconfig host, its well-known path, and the
/// Thunderbird database.
pub open spec fn well_known_urls(domain: Seq<char>) -> Seq<Seq<char>> {
    seq![
        "http://autoconfig."@ + domain + "/mail/config-v1.1.xml"@,
        "http://"@ + domain + "/.well-known/autoconfig/mail/config-v1.1.xml"@,
        "https://autoconfig.thunderbird.net/v1.1/"@ + domain,
    ]
}

/// The URLs to try for `domain`: the conventional ones and those its DNS TXT
/// records announce, each once, in ascending order.
pub fn candidate_urls(domain: &str, txt_urls: Vec<String>) -> (r: Vec<String>)
    ensures
        strictly_sorted(string_views(r@)),
        string_views(r@).to_set() == well_known_urls(domain@).to_set().union(
            string_views(txt_urls@).to_set(),
        ),
{
    let mut first = String::from_str("http://autoconfig.");
    first.append(domain);
    first.append("/mail/config-v1.1.xml");
    let mut second = String::from_str("http://");
    second.append(domain);
    second.append("/.well-known/autoconfig/mail/config-v1.1.xml");
    let mut third = String::from_str("https://autoconfig.thunderbird.net/v1.1/");
    third.append(domain);
    let ghost known = well_known_urls(domain@);
    assert(known =~= seq![first@, second@, third@]);
    let mut urls: Vec<String> = Vec::new();
    assert(string_views(urls@) =~= Seq::<Seq<char>>::empty());
    assert(string_views(urls@).to_set() =~= Set::<Seq<char>>::empty());
    insert_sorted_unique(&mut urls, first);
    insert_sorted_unique(&mut urls, second);
    insert_sorted_unique(&mut urls, third);
    proof {
        let e = Seq::<Seq<char>>::empty();
        lemma_to_set_push(e, known[0]);
        lemma_to_set_push(e.push(known[0]), known[1]);
        lemma_to_set_push(e.push(known[0]).push(known[1]), known[2]);
        assert(e.push(known[0]).push(known[1]).push(known[2]) =~= known);
        assert(e.to_set() =~= Set::<Seq<char>>::empty());
        assert(string_views(urls@).to_set() =~= known.to_set());
    }
    let ghost txt = string_views(txt_urls@);
    let mut i: usize = 0;
    while i < txt_urls.len()
        invariant
            txt == string_views(txt_urls@),
            known == well_known_urls(domain@),
            i <= txt_urls.len(),
            strictly_sorted(string_views(urls@)),
            string_views(urls@).to_set() == known.to_set().union(txt.take(i as int).to_set()),
        decreases txt_urls.len() - i,
    {
        let url = txt_urls[i].clone();
        insert_sorted_unique(&mut urls, url);
        proof {
            assert(txt.take(i + 1) =~= txt.take(i as int).push(txt[i as int]));
            lemma_to_set_push(txt.take(i as int), txt[i as int]);
            assert(string_views(urls@).to_set() =~= known.to_set().union(
                txt.take(i + 1).to_set(),
            ));
        }
        i = i + 1;
    }
    assert(txt.take(txt.len() as int) =~= txt);
    urls
}

/// The candidate URLs depend only on the domain and on which URLs the TXT
/// records announce, not on their order or repetition: any two lists that meet
/// the contract of `candidate_urls` for announced lists with the same elements
/// are equal.
pub proof fn lemma_candidate_urls_canonical(
    domain: Seq<char>,
    txt1: Seq<Seq<char>>,
    txt2: Seq<Seq<char>>,
    urls1: Seq<Seq<char>>,
    urls2: Seq<Seq<char>>,
)
    requires
        txt1.to_set() == txt2.to_set(),
        strictly_sorted(urls1),
        strictly_sorted(urls2),
        urls1.to_set() == well_known_urls(domain).to_set().union(txt1.to_set()),
        urls2.to_set() == well_known_urls(domain).to_set().union(txt2.to_set()),
    ensures
        urls1 == urls2,
{
    lemma_strictly_sorted_determined_by_set(urls1, urls2);
}

/// The URL a TXT record announces: its first chunk, read as UTF-8, must have
/// the shape `TXT_RECORD_REGEX` describes, and the URL it captures must use
/// the `https` scheme.
pub open spec fn txt_record_url(record: Seq<Seq<u8>>) -> Option<Seq<char>> {
    if record.len() == 0 || !valid_utf8(record[0]) {
        None
    } else {
        match regex_capture_result(TXT_RECORD_REGEX@, decode_utf8(record[0]), 1) {
            Some(url) => https_only(url, url_scheme_result(url)),
            None => None,
        }
    }
}

/// `url` when its scheme is `https`.
pub open spec fn https_only(url: Seq<char>, scheme: Option<Seq<char>>) -> Option<Seq<char>> {
    if scheme == Some("https"@) {
        Some(url)
    } else {
        None
    }
}

/// Keeps an announced `url` whose parsed `scheme` is `https`.
pub fn accept_announced_url(url: String, scheme: Option<String>) -> (r: Option<String>)
    ensures
        opt_string_view(r) == https_only(url@, opt_string_view(scheme)),
{
    let https = String::from_str("https");
    match scheme {
        Some(scheme) => if scheme == https {
            Some(url)
        } else {
            None
        },
        None => None,
    }
}

/// The URLs that a list of TXT records announces, in record order.
pub open spec fn txt_urls_of(records: Seq<Seq<Seq<u8>>>) -> Seq<Seq<char>> {
    collect_some(records, |record: Seq<Seq<u8>>| txt_record_url(record))
}

/// The configuration URLs among the TXT records of a domain; each record is the
/// list of its character strings.
pub fn urls_from_txt_records(records: &Vec<Vec<Vec<u8>>>) -> (r: Vec<String>)
    ensures
        string_views(r@) == txt_urls_of(records.deep_view()),
{
    let ghost recs = records.deep_view();
    let ghost f = |record: Seq<Seq<u8>>| txt_record_url(record);
    let mut urls: Vec<String> = Vec::new();
    let mut i: usize = 0;
    while i < records.len()
        invariant
            recs == records.deep_view(),
            f == (|record: Seq<Seq<u8>>| txt_record_url(record)),
            i <= records.len(),
            string_views(urls@) == collect_some(recs.take(i as int), f),
        decreases records.len() - i,
    {
        proof {
            lemma_prefix_step(recs, i as int);
        }
        let ghost before = string_views(urls@);
        let record = &records[i];
        assert(recs[i as int] == record.deep_view());
        if record.len() > 0 {
            let chunk = &record[0];
            assert(recs[i as int][0] == chunk@);
            if let Some(text) = utf8_to_str(chunk.as_slice()) {
                if let Some(url) = regex_capture(TXT_RECORD_REGEX, text, 1) {
                    let scheme = url_scheme(url.as_str());
                    if let Some(accepted) = accept_announced_url(url, scheme) {
                        let ghost u = accepted@;
                        urls.push(accepted);
                        assert(string_views(urls@) =~= before.push(u));
                    }
                }
            }
        }
        i = i + 1;
    }
    assert(recs.take(recs.len() as int) =~= recs);
    urls
}

/// Whether a response can carry a configuration: a response whose status is
/// not a success is refused with its body in the message.
pub fn check_response(success: bool, body: &[u8]) -> (r: Result<(), AutoconfigError>)
    ensures
        success ==> r is Ok,
        !success ==> (r matches Err(e) && e.kind_spec() is InvalidResponse && e.message_spec()
            == "HTTP request failed: "@ + utf8_lossy_result(body@)),
{
    if !success {
        return Err(invalid_response(utf8_lossy(body).as_str()));
    }
    Ok(())
}

/// The error for a response whose status is not a success and whose body reads
/// as `body_text`.
pub fn invalid_response(body_text: &str) -> (r: AutoconfigError)
    ensures
        r.kind_spec() is InvalidResponse,
        r.message_spec() == "HTTP request failed: "@ + body_text@,
{
    let mut message = String::from_str("HTTP request failed: ");
    message.append(body_text);
    AutoconfigError::new(ErrorKind::InvalidResponse, message)
}

/// The value of an outcome that succeeded.
pub open spec fn ok_value<T>(o: Result<T, AutoconfigError>) -> Option<T> {
    match o {
        Ok(t) => Some(t),
        Err(_) => None,
    }
}

/// The first success among outcomes.
pub open spec fn first_ok<T>(outcomes: Seq<Result<T, AutoconfigError>>) -> Option<T> {
    first_some(outcomes, |o: Result<T, AutoconfigError>| ok_value(o))
}

/// The settled outcome of a search over several places: the first success in
/// the order the attempts finished; when none succeeded, a `NotFound` error
/// that lists the earlier `errors` and then the error of the attempt that
/// finished last.
pub fn select_first_ok<T>(outcomes: Vec<Result<T, AutoconfigError>>, errors: Vec<AutoconfigError>) -> (r:
    Result<T, AutoconfigError>)
    requires
        outcomes.len() > 0,
    ensures
        first_ok(outcomes@) matches Some(t) ==> r == Ok::<T, AutoconfigError>(t),
        first_ok(outcomes@) is None ==> (r matches Err(e) && e.message_spec()
            == "Could not find a valid config"@ && (e.kind_spec() matches ErrorKind::NotFound(all)
            && outcomes@.last() matches Err(last) && all@ == errors@.push(last))),
{
    let ghost outs = outcomes@;
    let ghost f = |o: Result<T, AutoconfigError>| ok_value(o);
    let mut i: usize = 0;
    while i < outcomes.len()
        invariant
            outs == outcomes@,
            f == (|o: Result<T, AutoconfigError>| ok_value(o)),
            i <= outs.len(),
            first_some(outs.take(i as int), f) is None,
        decreases outs.len() - i,
    {
        proof {
            lemma_prefix_step(outs, i as int);
        }
        if outcomes[i].is_ok() {
            proof {
                assert(outs.take(i + 1) + outs.skip(i + 1) =~= outs);
                lemma_first_some_extend(outs.take(i + 1), outs.skip(i + 1), f);
            }
            let mut outcomes = outcomes;
            let found = outcomes.swap_remove(i);
            return found;
        }
        i = i + 1;
    }
    assert(outs.take(outs.len() as int) =~= outs);
    let mut outcomes = outcomes;
    let mut errors = errors;
    let last = outcomes.pop();
    match last {
        Some(Err(e)) => {
            errors.push(e);
        },
        _ => {
            proof {
                lemma_prefix_step(outs, outs.len() - 1);
            }
        },
    }
    Err(AutoconfigError::new(ErrorKind::NotFound(errors), String::from_str("Could not find a valid config")))
}

/// The URLs announced by TXT records: none for no records; each further record
/// adds the URL it announces, if any, at the end. A record announces `u`
/// exactly when it has a first chunk that is valid UTF-8, in whose text the TXT
/// pattern captures `u`, and `u` parses with the scheme `https`.
pub proof fn lemma_txt_urls_law(records: Seq<Seq<Seq<u8>>>, record: Seq<Seq<u8>>, u: Seq<char>)
    ensures
        txt_urls_of(Seq::<Seq<Seq<u8>>>::empty()) == Seq::<Seq<char>>::empty(),
        txt_record_url(record) == Some(u) ==> txt_urls_of(records.push(record)) == txt_urls_of(
            records,
        ).push(u),
        txt_record_url(record) is None ==> txt_urls_of(records.push(record)) == txt_urls_of(records),
        txt_record_url(record) == Some(u) <==> (record.len() > 0 && valid_utf8(record[0])
            && regex_capture_result(TXT_RECORD_REGEX@, decode_utf8(record[0]), 1) == Some(u)
            && url_scheme_result(u) == Some("https"@)),
{
    lemma_collect_push(records, record, |r: Seq<Seq<u8>>| txt_record_url(r));
}

/// The first success among outcomes is `t` exactly when some outcome is
/// `Ok(t)` and every earlier one failed; there is none exactly when every
/// outcome failed.
pub proof fn lemma_first_ok_law<T>(outcomes: Seq<Result<T, AutoconfigError>>, t: T)
    ensures
        first_ok(outcomes) == Some(t) <==> exists|i: int|
            0 <= i < outcomes.len() && outcomes[i] == Ok::<T, AutoconfigError>(t) && forall|j: int|
                0 <= j < i ==> (#[trigger] outcomes[j]) is Err,
        first_ok(outcomes) is None <==> forall|i: int|
            0 <= i < outcomes.len() ==> (#[trigger] outcomes[i]) is Err,
{
    let f = |o: Result<T, AutoconfigError>| ok_value(o);
    lemma_first_some_index(outcomes, f, t);
    assert forall|i: int| 0 <= i < outcomes.len() implies (f(outcomes[i]) is None <==> outcomes[i] is Err)
        && (f(outcomes[i]) == Some(t) <==> outcomes[i] == Ok::<T, AutoconfigError>(t)) by {}
    if first_ok(outcomes) == Some(t) {
        let i = choose|i: int|
            0 <= i < outcomes.len() && f(outcomes[i]) == Some(t) && forall|j: int|
                0 <= j < i ==> (#[trigger] f(outcomes[j])) is None;
        assert forall|j: int| 0 <= j < i implies (#[trigger] outcomes[j]) is Err by {
            assert(f(outcomes[j]) is None);
        }
    }
    if exists|i: int|
        0 <= i < outcomes.len() && outcomes[i] == Ok::<T, AutoconfigError>(t) && forall|j: int|
            0 <= j < i ==> (#[trigger] outcomes[j]) is Err {
        let i = choose|i: int|
            0 <= i < outcomes.len() && outcomes[i] == Ok::<T, AutoconfigError>(t) && forall|j: int|
                0 <= j < i ==> (#[trigger] outcomes[j]) is Err;
        assert forall|j: int| 0 <= j < i implies (#[trigger] f(outcomes[j])) is None by {
            assert(outcomes[j] is Err);
        }
        assert(f(outcomes[i]) == Some(t));
    }
    if first_ok(outcomes) is None {
        assert forall|i: int| 0 <= i < outcomes.len() implies (#[trigger] outcomes[i]) is Err by {
            assert(f(outcomes[i]) is None);
        }
    }
    if forall|i: int| 0 <= i < outcomes.len() ==> (#[trigger] outcomes[i]) is Err {
        assert forall|i: int| 0 <= i < outcomes.len() implies (#[trigger] f(outcomes[i])) is None by {
            assert(outcomes[i] is Err);
        }
    }
}

/// An optional string is viewed as the text it holds.
pub proof fn lemma_opt_string_view_law(o: Option<String>)
    ensures
        opt_string_view(o) is Some <==> o is Some,
        o matches Some(x) ==> opt_string_view(o) == Some(x@),
{
}

/// The conventional places for `domain` are exactly these three URLs.
pub proof fn lemma_well_known_urls_law(domain: Seq<char>)
    ensures
        well_known_urls(domain).len() == 3,
        well_known_urls(domain)[0] == "http://autoconfig."@ + domain + "/mail/config-v1.1.xml"@,
        well_known_urls(domain)[1] == "http://"@ + domain
            + "/.well-known/autoconfig/mail/config-v1.1.xml"@,
        well_known_urls(domain)[2] == "https://autoconfig.thunderbird.net/v1.1/"@ + domain,
{
}

/// An announced URL is kept exactly when its scheme is `https`.
pub proof fn lemma_https_only_law(url: Seq<char>, scheme: Option<Seq<char>>)
    ensures
        https_only(url, scheme) is Some <==> scheme == Some("https"@),
        https_only(url, scheme) is Some ==> https_only(url, scheme) == Some(url),
{
}

} // verus!
