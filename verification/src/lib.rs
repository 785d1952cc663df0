//! Client-side library for a URL-shortening web service: typed JSON
//! requests and responses, an envelope decoder, a local history store,
//! key validation, and terminal hyperlink rendering.
pub mod api;
pub mod codec;
pub mod error;
pub mod json;
pub mod key;
pub mod link;
pub mod model;

pub use api::{Client, Req};
pub use codec::{load_step, parse_history, render_history};
pub use error::Error;
pub use key::{gen_key, valid_key, Key};
pub use link::{Link, Linked};
pub use model::{
    DelRequest, DelResponse, ErrorCode, GetRequest, GetResponse, ListRequest, ListResponse,
    PostRequest, PostResponse, PutRequest, PutResponse, Response, URLRecord, UrlStored,
    VerifyRequest, VerifyResponse, VerifySingle,
};
