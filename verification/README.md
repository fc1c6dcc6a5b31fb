# htmxology

Building blocks for server-side rendered web applications that use [HTMX](https://htmx.org):
route URLs and their path arguments, HTMX requests and responses, out-of-band fragments,
conditional caching, web components, and the decisions of the derive macros that turn route
enums and controllers into code. The library is verified with Verus: each public function states
what it returns, and the laws that relate functions (a URL read back from its text, a route that
writes its own URL, a client that sends back an entity tag) are proved.

Layout:

- `src/`: the verified library.
  - `route_url`, `route_format`, `route_url_laws`: route URL templates (`/users/{id}`), their
    text, the regular expression that matches them and the statements that write them.
  - `url`, `url_format`, `url_laws`: URLs as written in `url` attributes, with named and unnamed
    arguments.
  - `attributes`, `route_attributes`, `field_roles`, `variant_config`, `route_codegen`,
    `route_handlers`, `routing_plan`: what the `Route` derive reads from a variant, what it
    writes for it (URL statements, match patterns, `Display` arms, subroute handlers), and the
    order in which requests and `FromStr` are matched against the variants.
  - `lifetimes`, `controller_specs`, `controller_plan`: what the controller derives read from
    their attributes, and what they generate from them (the route enum and the dispatch arms).
  - `path_arg`, `params`, `route`: path argument decoding and route helpers.
  - `htmx`, `headers`, `response`, `oob`: HTML identifiers, insert strategies, HTMX request
    headers, responses and their out-of-band fragments.
  - `caching`, `caching_laws`: cache control and entity tags.
  - `web_components`, `server_options`, `server_errors`: web component scripts, server options
    and errors.
  - `laws`: laws that relate several modules.
- `tests/`: tests on concrete values.
- `app/`: the parts that do I/O or implement traits of outside crates (Axum extractors and
  responses, serde deserializers, the server).
