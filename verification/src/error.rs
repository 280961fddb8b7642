//! The kinds of failure that the host application reports.

use vstd::prelude::*;
use vstd::utf8::encode_utf8;
use crate::bytes::push_bytes;

verus! {

/// What can go wrong in the host application. Where a variant stands for a
/// failure of another component, it carries that failure's message.
#[derive(Debug)]
pub enum Error {
    /// A log directive could not be parsed.
    LogParse(String),
    /// Reading or writing failed.
    Io(String),
    /// The chain client failed.
    Subxt(String),
    /// The chain is none of the supported ones.
    InvalidChain(String),
    /// The chain's metadata is not what was expected.
    InvalidMetadata(String),
    /// A value could not be decoded.
    Codec(String),
    /// The account does not exist on chain.
    AccountDoesNotExists,
    /// The secret key could not be read.
    Crypto(String),
    /// The snapshot is empty.
    EmptySnapshot,
    /// The miner failed.
    Miner(String),
    /// A transaction could not be built.
    DynamicTransaction(String),
    /// Anything else.
    Other(String),
}

/// The words that open the message of an error.
pub open spec fn message_opening(e: Error) -> Seq<u8> {
    match e {
        Error::LogParse(_) => seq![70u8, 97u8, 105u8, 108u8, 101u8, 100u8, 32u8, 116u8, 111u8, 32u8, 112u8, 97u8, 114u8, 115u8, 101u8, 32u8, 108u8, 111u8, 103u8, 32u8, 100u8, 105u8, 114u8, 101u8, 99u8, 116u8, 105u8, 118u8, 101u8, 58u8, 32u8, 96u8],
        Error::Io(_) => seq![73u8, 47u8, 79u8, 32u8, 101u8, 114u8, 114u8, 111u8, 114u8, 58u8, 32u8, 96u8],
        Error::Subxt(_) => seq![115u8, 117u8, 98u8, 120u8, 116u8, 32u8, 101u8, 114u8, 114u8, 111u8, 114u8, 58u8, 32u8, 96u8],
        Error::InvalidChain(_) => seq![73u8, 110u8, 118u8, 97u8, 108u8, 105u8, 100u8, 32u8, 99u8, 104u8, 97u8, 105u8, 110u8, 58u8, 32u8, 96u8],
        Error::InvalidMetadata(_) => seq![73u8, 110u8, 118u8, 97u8, 108u8, 105u8, 100u8, 32u8, 109u8, 101u8, 116u8, 97u8, 100u8, 97u8, 116u8, 97u8, 58u8, 32u8],
        Error::Codec(_) => seq![67u8, 111u8, 100u8, 101u8, 99u8, 32u8, 101u8, 114u8, 114u8, 111u8, 114u8, 58u8, 32u8, 96u8],
        Error::AccountDoesNotExists => seq![84u8, 104u8, 101u8, 32u8, 97u8, 99u8, 99u8, 111u8, 117u8, 110u8, 116u8, 32u8, 100u8, 111u8, 101u8, 115u8, 32u8, 110u8, 111u8, 116u8, 32u8, 101u8, 120u8, 105u8, 115u8, 116u8],
        Error::Crypto(_) => seq![67u8, 114u8, 121u8, 112u8, 116u8, 111u8, 32u8, 101u8, 114u8, 114u8, 111u8, 114u8, 58u8, 32u8, 96u8],
        Error::EmptySnapshot => seq![69u8, 109u8, 112u8, 116u8, 121u8, 32u8, 115u8, 110u8, 97u8, 112u8, 115u8, 104u8, 111u8, 116u8],
        Error::Miner(_) => seq![77u8, 105u8, 110u8, 101u8, 114u8, 32u8, 101u8, 114u8, 114u8, 111u8, 114u8, 58u8, 32u8, 96u8],
        Error::DynamicTransaction(_) => seq![68u8, 121u8, 110u8, 97u8, 109u8, 105u8, 99u8, 32u8, 116u8, 114u8, 97u8, 110u8, 115u8, 97u8, 99u8, 116u8, 105u8, 111u8, 110u8, 32u8, 101u8, 114u8, 114u8, 111u8, 114u8, 58u8, 32u8],
        Error::Other(_) => seq![79u8, 116u8, 104u8, 101u8, 114u8, 32u8, 101u8, 114u8, 114u8, 111u8, 114u8, 58u8, 32u8, 96u8],
    }
}

/// The message that the error carries, as UTF-8; empty where it carries none.
pub open spec fn message_detail(e: Error) -> Seq<u8> {
    match e {
        Error::LogParse(s) => encode_utf8(s@),
        Error::Io(s) => encode_utf8(s@),
        Error::Subxt(s) => encode_utf8(s@),
        Error::InvalidChain(s) => encode_utf8(s@),
        Error::InvalidMetadata(s) => encode_utf8(s@),
        Error::Codec(s) => encode_utf8(s@),
        Error::AccountDoesNotExists => Seq::empty(),
        Error::Crypto(s) => encode_utf8(s@),
        Error::EmptySnapshot => Seq::empty(),
        Error::Miner(s) => encode_utf8(s@),
        Error::DynamicTransaction(s) => encode_utf8(s@),
        Error::Other(s) => encode_utf8(s@),
    }
}

/// The words that close the message of an error.
pub open spec fn message_closing(e: Error) -> Seq<u8> {
    match e {
        Error::LogParse(_) => seq![194u8, 180u8],
        Error::Io(_) => seq![96u8],
        Error::Subxt(_) => seq![96u8],
        Error::InvalidChain(_) => seq![96u8, 44u8, 32u8, 115u8, 116u8, 97u8, 107u8, 105u8, 110u8, 103u8, 45u8, 109u8, 105u8, 110u8, 101u8, 114u8, 32u8, 115u8, 117u8, 112u8, 112u8, 111u8, 114u8, 116u8, 115u8, 32u8, 111u8, 110u8, 108u8, 121u8, 32u8, 112u8, 111u8, 108u8, 107u8, 97u8, 100u8, 111u8, 116u8, 44u8, 32u8, 107u8, 117u8, 115u8, 97u8, 109u8, 97u8, 32u8, 97u8, 110u8, 100u8, 32u8, 119u8, 101u8, 115u8, 116u8, 101u8, 110u8, 100u8],
        Error::InvalidMetadata(_) => Seq::empty(),
        Error::Codec(_) => seq![96u8],
        Error::AccountDoesNotExists => Seq::empty(),
        Error::Crypto(_) => seq![96u8],
        Error::EmptySnapshot => Seq::empty(),
        Error::Miner(_) => seq![96u8],
        Error::DynamicTransaction(_) => Seq::empty(),
        Error::Other(_) => seq![96u8],
    }
}

/// The whole message of an error, as UTF-8.
pub open spec fn message_text(e: Error) -> Seq<u8> {
    message_opening(e) + message_detail(e) + message_closing(e)
}

/// Appends the UTF-8 bytes of `s`.
pub fn push_string(out: &mut Vec<u8>, s: &String)
    ensures
        final(out)@ == old(out)@ + encode_utf8(s@),
{
    push_bytes(out, s.as_str().as_bytes());
}

impl Error {
    /// The message of the error for a human reader, as UTF-8.
    pub fn message(&self) -> (out: Vec<u8>)
        ensures
            out@ == message_text(*self),
    {
        let mut out: Vec<u8> = Vec::new();
        match self {
            Error::LogParse(s) => {
                let opening: [u8; 32] = [70, 97, 105, 108, 101, 100, 32, 116, 111, 32, 112, 97, 114, 115, 101, 32, 108, 111, 103, 32, 100, 105, 114, 101, 99, 116, 105, 118, 101, 58, 32, 96];
                assert(opening@ =~= message_opening(*self));
                push_bytes(&mut out, opening.as_slice());
                push_string(&mut out, s);
                let closing: [u8; 2] = [194, 180];
                assert(closing@ =~= message_closing(*self));
                push_bytes(&mut out, closing.as_slice());
            },
            Error::Io(s) => {
                let opening: [u8; 12] = [73, 47, 79, 32, 101, 114, 114, 111, 114, 58, 32, 96];
                assert(opening@ =~= message_opening(*self));
                push_bytes(&mut out, opening.as_slice());
                push_string(&mut out, s);
                let closing: [u8; 1] = [96];
                assert(closing@ =~= message_closing(*self));
                push_bytes(&mut out, closing.as_slice());
            },
            Error::Subxt(s) => {
                let opening: [u8; 14] = [115, 117, 98, 120, 116, 32, 101, 114, 114, 111, 114, 58, 32, 96];
                assert(opening@ =~= message_opening(*self));
                push_bytes(&mut out, opening.as_slice());
                push_string(&mut out, s);
                let closing: [u8; 1] = [96];
                assert(closing@ =~= message_closing(*self));
                push_bytes(&mut out, closing.as_slice());
            },
            Error::InvalidChain(s) => {
                let opening: [u8; 16] = [73, 110, 118, 97, 108, 105, 100, 32, 99, 104, 97, 105, 110, 58, 32, 96];
                assert(opening@ =~= message_opening(*self));
                push_bytes(&mut out, opening.as_slice());
                push_string(&mut out, s);
                let closing: [u8; 59] = [96, 44, 32, 115, 116, 97, 107, 105, 110, 103, 45, 109, 105, 110, 101, 114, 32, 115, 117, 112, 112, 111, 114, 116, 115, 32, 111, 110, 108, 121, 32, 112, 111, 108, 107, 97, 100, 111, 116, 44, 32, 107, 117, 115, 97, 109, 97, 32, 97, 110, 100, 32, 119, 101, 115, 116, 101, 110, 100];
                assert(closing@ =~= message_closing(*self));
                push_bytes(&mut out, closing.as_slice());
            },
            Error::InvalidMetadata(s) => {
                let opening: [u8; 18] = [73, 110, 118, 97, 108, 105, 100, 32, 109, 101, 116, 97, 100, 97, 116, 97, 58, 32];
                assert(opening@ =~= message_opening(*self));
                push_bytes(&mut out, opening.as_slice());
                push_string(&mut out, s);
            },
            Error::Codec(s) => {
                let opening: [u8; 14] = [67, 111, 100, 101, 99, 32, 101, 114, 114, 111, 114, 58, 32, 96];
                assert(opening@ =~= message_opening(*self));
                push_bytes(&mut out, opening.as_slice());
                push_string(&mut out, s);
                let closing: [u8; 1] = [96];
                assert(closing@ =~= message_closing(*self));
                push_bytes(&mut out, closing.as_slice());
            },
            Error::AccountDoesNotExists => {
                let opening: [u8; 26] = [84, 104, 101, 32, 97, 99, 99, 111, 117, 110, 116, 32, 100, 111, 101, 115, 32, 110, 111, 116, 32, 101, 120, 105, 115, 116];
                assert(opening@ =~= message_opening(*self));
                push_bytes(&mut out, opening.as_slice());
            },
            Error::Crypto(s) => {
                let opening: [u8; 15] = [67, 114, 121, 112, 116, 111, 32, 101, 114, 114, 111, 114, 58, 32, 96];
                assert(opening@ =~= message_opening(*self));
                push_bytes(&mut out, opening.as_slice());
                push_string(&mut out, s);
                let closing: [u8; 1] = [96];
                assert(closing@ =~= message_closing(*self));
                push_bytes(&mut out, closing.as_slice());
            },
            Error::EmptySnapshot => {
                let opening: [u8; 14] = [69, 109, 112, 116, 121, 32, 115, 110, 97, 112, 115, 104, 111, 116];
                assert(opening@ =~= message_opening(*self));
                push_bytes(&mut out, opening.as_slice());
            },
            Error::Miner(s) => {
                let opening: [u8; 14] = [77, 105, 110, 101, 114, 32, 101, 114, 114, 111, 114, 58, 32, 96];
                assert(opening@ =~= message_opening(*self));
                push_bytes(&mut out, opening.as_slice());
                push_string(&mut out, s);
                let closing: [u8; 1] = [96];
                assert(closing@ =~= message_closing(*self));
                push_bytes(&mut out, closing.as_slice());
            },
            Error::DynamicTransaction(s) => {
                let opening: [u8; 27] = [68, 121, 110, 97, 109, 105, 99, 32, 116, 114, 97, 110, 115, 97, 99, 116, 105, 111, 110, 32, 101, 114, 114, 111, 114, 58, 32];
                assert(opening@ =~= message_opening(*self));
                push_bytes(&mut out, opening.as_slice());
                push_string(&mut out, s);
            },
            Error::Other(s) => {
                let opening: [u8; 14] = [79, 116, 104, 101, 114, 32, 101, 114, 114, 111, 114, 58, 32, 96];
                assert(opening@ =~= message_opening(*self));
                push_bytes(&mut out, opening.as_slice());
                push_string(&mut out, s);
                let closing: [u8; 1] = [96];
                assert(closing@ =~= message_closing(*self));
                push_bytes(&mut out, closing.as_slice());
            },
        }
        assert(out@ =~= message_text(*self));
        out
    }
}

} // verus!
