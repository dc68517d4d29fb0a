//! The outside world as the engine sees it: each network submission is
//! answered by the next scripted reply, and every submission is recorded,
//! so a driver can perform the real work and hand the answers back.

use vstd::prelude::*;
use crate::headers::Headers;
use crate::request::Method;
use crate::response::clone_bytes;
use crate::urls::Url;

verus! {

/// One request as it goes on the wire.
pub struct WirePlan {
    pub url: Url,
    pub method: Method,
    pub headers: Headers,
    pub body: Option<Vec<u8>>,
}

/// What a server answered: status, headers, and the complete body.
pub struct WireResponse {
    pub status: u16,
    pub headers: Headers,
    pub body: Vec<u8>,
}

/// One answer of the connector: a response, or a connection failure.
pub enum WireReply {
    Success(WireResponse),
    Failure,
}

/// Whether a scripted reply is a success carrying the same data.
pub open spec fn wire_reply_matches(rep: WireReply, w: WireResponse) -> bool {
    match rep {
        WireReply::Success(w0) => w0.status == w.status && w0.headers.model() == w.headers.model()
            && w0.body@ == w.body@,
        WireReply::Failure => false,
    }
}

/// The wire: scripted replies, consumed in order, and the log of what was
/// submitted. File reads are scripted and logged the same way.
pub struct Wire {
    pub replies: Vec<WireReply>,
    pub sent: Vec<WirePlan>,
    pub file_replies: Vec<Option<Vec<u8>>>,
    pub file_sent: Vec<String>,
}

impl Wire {
    /// How many scripted replies have not been consumed.
    pub open spec fn remaining(self) -> nat {
        if self.sent@.len() <= self.replies@.len() {
            (self.replies@.len() - self.sent@.len()) as nat
        } else {
            0
        }
    }

    pub fn new(replies: Vec<WireReply>, file_replies: Vec<Option<Vec<u8>>>) -> (r: Wire)
        ensures
            r.replies@ == replies@,
            r.file_replies@ == file_replies@,
            r.sent@.len() == 0,
            r.file_sent@.len() == 0,
    {
        Wire { replies, sent: Vec::new(), file_replies, file_sent: Vec::new() }
    }

    /// Submits one request: records it and consumes the next scripted reply.
    /// `None` stands for a connection that could not be made.
    pub fn transmit(&mut self, plan: WirePlan) -> (r: Option<WireResponse>)
        ensures
            final(self).replies@ == old(self).replies@,
            final(self).file_replies@ == old(self).file_replies@,
            final(self).file_sent@ == old(self).file_sent@,
            final(self).sent@ == old(self).sent@.push(plan),
            match r {
                Some(w) => old(self).sent@.len() < old(self).replies@.len() && wire_reply_matches(
                    old(self).replies@[old(self).sent@.len() as int],
                    w,
                ) && final(self).remaining() < old(self).remaining(),
                None => !(old(self).sent@.len() < old(self).replies@.len()
                    && old(self).replies@[old(self).sent@.len() as int] is Success),
            },
            final(self).remaining() <= old(self).remaining(),
    {
        let i = self.sent.len();
        self.sent.push(plan);
        if i < self.replies.len() {
            match &self.replies[i] {
                WireReply::Success(w) => Some(
                    WireResponse {
                        status: w.status,
                        headers: w.headers.clone(),
                        body: clone_bytes(&w.body),
                    },
                ),
                WireReply::Failure => None,
            }
        } else {
            None
        }
    }

    /// Reads the file behind a path: records the path and consumes the next
    /// scripted outcome. `None` stands for a file that could not be read.
    pub fn read_file(&mut self, path: &str) -> (r: Option<Vec<u8>>)
        ensures
            final(self).replies@ == old(self).replies@,
            final(self).sent@ == old(self).sent@,
            final(self).file_replies@ == old(self).file_replies@,
            final(self).file_sent@.len() == old(self).file_sent@.len() + 1,
            final(self).file_sent@.last()@ == path@,
            forall|j: int|
                0 <= j < old(self).file_sent@.len() ==> final(self).file_sent@[j] == old(
                    self,
                ).file_sent@[j],
            match r {
                Some(v) => old(self).file_sent@.len() < old(self).file_replies@.len() && (match old(
                    self,
                ).file_replies@[old(self).file_sent@.len() as int] {
                    Some(b) => b@ == v@,
                    None => false,
                }),
                None => !(old(self).file_sent@.len() < old(self).file_replies@.len() && old(
                    self,
                ).file_replies@[old(self).file_sent@.len() as int] is Some),
            },
            final(self).remaining() == old(self).remaining(),
    {
        let i = self.file_sent.len();
        self.file_sent.push(path.to_owned());
        if i < self.file_replies.len() {
            match &self.file_replies[i] {
                Some(b) => Some(clone_bytes(b)),
                None => None,
            }
        } else {
            None
        }
    }
}

} // verus!
