# sophos_firewall_api

Typed access to the Sophos Firewall XML API, written in Verus: every function of the
library carries a `requires`/`ensures` contract that Verus proves.

## Layout

- `src/` — the verified library.
  - `request.rs`, `xml.rs`: requests and the XML documents built for them.
  - `events.rs`, `response.rs`, `tree.rs`: reading the firewall's replies (through
    quick_xml) into resource replies and element trees.
  - `client.rs`, `transport.rs`: the round trip through a caller-supplied transport.
  - `authz.rs`: authorization policies over requests; a client may check every request
    against one before it is built.
  - `json.rs`, `objects.rs`, `api.rs`, `common.rs`: field maps, objects known by name,
    and the read/write/update/delete patterns shared by the resource modules.
  - `dns.rs`, `service.rs`, `network.rs`, `ip.rs`, `firewall.rs`, `webfilter.rs`,
    `zone.rs`, `admin.rs`, `system.rs`, `user.rs`: one module per resource family.
  - `web.rs`: what the HTTP face decides — settings, error replies, request bodies and
    reply objects, and the client operations it calls.
  - `laws.rs`: properties that hold across inputs — which requests the builder refuses,
    what a parsed reply holds, the host name and address rules, object scopes, batch
    counts and error texts, grouping of repeated keys, group member updates, and how
    request bodies are named.
- `tests/` — behaviour tests run against the compiled library.
- `app/` — the HTTP server (axum), the blocking HTTP transport (reqwest) and reading
  settings from the environment.

Contracts are stated over views: strings as `Seq<char>`, field maps as sequences of
members, replies as `ResourceView`s. A transport names the replies it may give to a
document (`SophosTransport::replies`), and each send gives one of them for the URL and
document it was handed. Operations that talk to the firewall state, through `exchange`,
the document each request sends, the refusals whose result depends on no reply, and their
result for every reply the transport may give to those documents. How many times the
transport is called is not stated: it is borrowed shared, and a call leaves nothing a
contract could count.
