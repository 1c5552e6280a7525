# ikigai-http

An outbound HTTP client for the ikigai resolution kernel, written in Verus:
dereference the web as resources, with the kernel's caching and capabilities
applied to HTTP.

| resolve  | IRI              | HTTP   | cacheable |
|----------|------------------|--------|-----------|
| `source` | `urn:httpGet`    | GET    | yes       |
| `exists` | `urn:httpHead`   | HEAD   | yes       |
| `sink`   | `urn:httpPost`   | POST   | no        |
| `sink`   | `urn:httpPut`    | PUT    | no        |
| `sink`   | `urn:httpPatch`  | PATCH  | no        |
| `delete` | `urn:httpDelete` | DELETE | no        |

## Layout

- `src/` is the verified library. It performs no I/O: an `Exchange` says which
  request goes out next and what a reply comes to.
  - `method`: the methods, their names and verbs.
  - `acl`: the network capability, `urn:cap:net:<host>[:<port>][/<path-prefix>]`.
    The longest matching rule wins, an exclusion (a leading `-`) breaks ties, and
    without a matching rule nothing is allowed.
  - `arguments`, `message`, `target`: the arguments of an invocation, requests and
    responses, URLs.
  - `status`, `freshness`: what a status means, what a response is served as, and
    until when a cached copy of it is valid.
  - `exchange`: the exchange with an origin, redirects included.
  - `run`: what holds of an invocation as a whole. Every request that goes out is
    granted by the caller's capability; reads follow at most five redirects and
    writes none; a successful write cuts the thread that a cached read of the same
    URL depends on.
  - `describe`: what an endpoint says of itself.
  - `text`: searching, splitting, trimming and numbers.
- `app/` is the kernel module around it: the `HttpTransport` that a host
  implements, the endpoints, and `space`, which binds all six.
- `tests/` runs the library, by itself and in a kernel, over origins in memory. In
  the kernel it stands behind a small host of the tests' own, which converts and
  runs exchanges as `app/` does; `app/` itself is not run by them.

## What is trusted

The proofs rest on the contracts of a few outside functions: URL parsing, joining
and the parts of a URL (`url`), the cacheability of a verb and the advance of a time
(`ikigai-core`), and `char::is_whitespace` and `String::push` of the standard
library. Each stands beside its use with what is claimed of it.
