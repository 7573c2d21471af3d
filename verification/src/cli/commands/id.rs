//! `id`: generating, validating and converting task IDs.

use vstd::prelude::*;
use crate::id::{
    b62_encode, encode_base62, hyphenated, is_v7_spec, new_id, parse_task_id,
    resolve_task_id_spec, uuid_parsed,
};

verus! {

/// Output format for task IDs.
#[derive(Debug, Clone, Copy, PartialEq, Eq, Structural)]
pub enum IdFormat {
    /// Base62-encoded compact form.
    Base62,
    /// Hyphenated UUIDv7.
    UuidV7,
}

/// Arguments of `id`: with no input a new ID is generated; otherwise the
/// input is validated and converted.
#[derive(Debug, Clone, PartialEq)]
pub struct IdArgs {
    /// Input ID to validate or convert (UUIDv7 or base62).
    pub from: Option<String>,
    /// Output format.
    pub to: IdFormat,
}

/// The ID `v` in the output format.
pub open spec fn id_text(v: u128, to: IdFormat) -> Seq<char> {
    match to {
        IdFormat::Base62 => b62_encode(v as nat),
        IdFormat::UuidV7 => hyphenated(v),
    }
}

impl IdArgs {
    /// The text that `id` prints: the given ID (resolved to its UUIDv7) or a
    /// new one, in the output format; an input that does not resolve gives
    /// its error.
    pub fn render(&self) -> (r: Result<String, String>)
        ensures
            match &self.from {
                Some(input) => match resolve_task_id_spec(input@, uuid_parsed(input@)) {
                    Err(e) => r matches Err(m) && m@ == e,
                    Ok(c) => exists|v: u128| #[trigger] hyphenated(v) == c && is_v7_spec(v) && (
                    r matches Ok(t) && t@ == id_text(v, self.to)),
                },
                None => exists|v: u128| #[trigger] is_v7_spec(v) && (r matches Ok(t) && t@ == id_text(
                    v,
                    self.to,
                )),
            },
    {
        let canonical = match &self.from {
            Some(input) => match parse_task_id(input.as_str()) {
                Ok(c) => c,
                Err(e) => {
                    return Err(e);
                },
            },
            None => new_id(),
        };
        proof {
            match &self.from {
                Some(input) => {
                    match uuid_parsed(input@) {
                        Some(v) => {
                            assert(is_v7_spec(v) && canonical@ == hyphenated(v));
                        },
                        None => {
                            let v = crate::id::b62_decode(input@)->0;
                            assert(is_v7_spec(v) && canonical@ == hyphenated(v));
                        },
                    }
                },
                None => {},
            }
        }
        let ghost v = choose|v: u128| is_v7_spec(v) && canonical@ == hyphenated(v);
        assert(is_v7_spec(v) && canonical@ == hyphenated(v));
        match self.to {
            IdFormat::Base62 => match encode_base62(canonical.as_str()) {
                Some(b) => Ok(b),
                None => Err("failed to encode as base62".to_string()),
            },
            IdFormat::UuidV7 => Ok(canonical),
        }
    }
}

}
