# bichon_autoconfig

Discovery of mail server settings published in the Thunderbird autoconfig
format, verified with Verus.

- `src/mozilla_config.rs`: the configuration document (provider, servers,
  POP3 settings, documentation, OAuth2) and its accessors.
- `src/fetch.rs`: the discovery rules: checking an address and taking its
  domain, the candidate URLs (conventional ones and those DNS TXT records
  announce, sorted and without repeats), judging responses, and settling the
  outcome of the parallel requests; the errors of the discovery.
- `src/cache.rs`: expiry of cached configurations.
- `src/text.rs`, `src/order.rs`, `src/select.rs`: splitting text, ordering
  texts, and picking values out of lists, with their proofs.
- `src/outside.rs`: declarations of the error types of the HTTP, DNS and XML
  crates.
- `app/`: the program around the library: XML reading with serde, DNS and
  HTTP requests, and the wait for a stop signal.
