//! An outbound HTTP client for the ikigai resolution kernel: the web as
//! resources, with the kernel's caching and capabilities applied to HTTP.
//!
//! Each HTTP method is a resource of its own, resolved with the verb whose
//! cacheability matches the method's idempotency. The target URL is an argument,
//! so that one binding serves every URL.
//!
//! | resolve  | IRI              | HTTP   | cacheable |
//! |----------|------------------|--------|-----------|
//! | `source` | `urn:httpGet`    | GET    | yes       |
//! | `exists` | `urn:httpHead`   | HEAD   | yes       |
//! | `sink`   | `urn:httpPost`   | POST   | no        |
//! | `sink`   | `urn:httpPut`    | PUT    | no        |
//! | `sink`   | `urn:httpPatch`  | PATCH  | no        |
//! | `delete` | `urn:httpDelete` | DELETE | no        |
//!
//! The library performs no I/O. [`HttpEndpoint::invoke`] begins an [`Exchange`],
//! whose [`Exchange::request`] the host sends and whose reply it hands to
//! [`Exchange::receive`], which asks for another request or settles the
//! invocation. An [`Exchange`] exists only where the capability grants its
//! target, so that every hop of a redirect is held to the caller's capability.
//!
//! - [`method`]: the methods, their names and verbs;
//! - [`acl`]: the network capability;
//! - [`message`], [`arguments`], [`target`]: what goes out and comes back;
//! - [`status`], [`freshness`]: what a response means and how long it is valid;
//! - [`exchange`]: the exchange with an origin;
//! - [`run`]: what holds of an invocation as a whole;
//! - [`describe`]: what an endpoint says of itself;
//! - [`text`]: the texts that all of these read.

pub mod acl;
pub mod arguments;
pub mod describe;
pub mod exchange;
pub mod freshness;
pub mod message;
pub mod method;
pub mod run;
pub mod status;
pub mod target;
pub mod text;

pub use acl::{net_allows, net_allows_port, Capability};
pub use arguments::Arguments;
pub use describe::{Description, Input};
pub use exchange::{kernel_cut_iri, space, Answer, Exchange, HttpEndpoint, Step, Verdict};
pub use freshness::Representation;
pub use message::{HttpRequest, HttpResponse};
pub use method::{Method, Verb};
pub use status::Error;
pub use target::{Place, Target};
