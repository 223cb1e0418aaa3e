//! The wire-level vocabulary of the protocol: user statuses and the
//! response lines the server can answer a request with.

use vstd::prelude::*;

verus! {

/// The status a joined user can carry, reported by `USERBOARD` and set
/// by `USERSTATUS`.
#[derive(Clone, Copy, PartialEq, Eq, Structural, Debug)]
pub enum Status {
    Online,
    Offline,
    DoNotDisturb,
}

impl Status {
    /// The wire token for this status.
    pub open spec fn token_spec(self) -> Seq<char> {
        match self {
            Status::Online => "ONLINE"@,
            Status::Offline => "OFFLINE"@,
            Status::DoNotDisturb => "DO_NOT_DISTURB"@,
        }
    }

    /// The status a wire token names, if any.
    pub open spec fn parse_spec(s: Seq<char>) -> Option<Status> {
        if s == "ONLINE"@ {
            Some(Status::Online)
        } else if s == "OFFLINE"@ {
            Some(Status::Offline)
        } else if s == "DO_NOT_DISTURB"@ {
            Some(Status::DoNotDisturb)
        } else {
            None
        }
    }

    /// Parses a wire token; matches `parse_spec`.
    pub fn from_token(v: &Vec<char>) -> (r: Option<Status>)
        ensures
            r == Status::parse_spec(v@),
    {
        if crate::chars::chars_eq_str(v, "ONLINE") {
            Some(Status::Online)
        } else if crate::chars::chars_eq_str(v, "OFFLINE") {
            Some(Status::Offline)
        } else if crate::chars::chars_eq_str(v, "DO_NOT_DISTURB") {
            Some(Status::DoNotDisturb)
        } else {
            None
        }
    }

    /// Renders this status as its wire token.
    pub fn token(self) -> (r: &'static str)
        ensures
            r@ == self.token_spec(),
    {
        match self {
            Status::Online => "ONLINE",
            Status::Offline => "OFFLINE",
            Status::DoNotDisturb => "DO_NOT_DISTURB",
        }
    }
}

/// Every response line the dispatcher can produce, one per request frame.
#[derive(PartialEq, Eq, Debug)]
pub enum Response {
    Okay,
    InvalidUsername,
    Bye,
    Sent,
    MessageFailed,
    InvalidMessageFormat,
    UserstatusUpdated,
    InvalidRequest,
    Board(String),
    ServerError,
}

impl Response {
    /// The exact newline-terminated line written back to the requester.
    pub open spec fn line_spec(self) -> Seq<char> {
        match self {
            Response::Okay => "200 OK\n"@,
            Response::InvalidUsername => "400 INVALID USERNAME\n"@,
            Response::Bye => "200 BYE\n"@,
            Response::Sent => "200 SENT\n"@,
            Response::MessageFailed => "400 MESSAGE FAILED\n"@,
            Response::InvalidMessageFormat => "400 INVALID MESSAGE FORMAT\n"@,
            Response::UserstatusUpdated => "200 USERSTATUS UPDATED\n"@,
            Response::InvalidRequest => "400 INVALID REQUEST\n"@,
            Response::Board(board) => "200 BOARD "@ + board@ + "\n"@,
            Response::ServerError => "500 SERVER ERROR\n"@,
        }
    }

    /// Copies the response.
    pub fn duplicate(&self) -> (r: Response)
        ensures
            r == self,
    {
        match self {
            Response::Okay => Response::Okay,
            Response::InvalidUsername => Response::InvalidUsername,
            Response::Bye => Response::Bye,
            Response::Sent => Response::Sent,
            Response::MessageFailed => Response::MessageFailed,
            Response::InvalidMessageFormat => Response::InvalidMessageFormat,
            Response::UserstatusUpdated => Response::UserstatusUpdated,
            Response::InvalidRequest => Response::InvalidRequest,
            Response::Board(board) => Response::Board(board.clone()),
            Response::ServerError => Response::ServerError,
        }
    }

    /// Renders the response as the line to write on the socket.
    pub fn line(&self) -> (r: String)
        ensures
            r@ == self.line_spec(),
    {
        match self {
            Response::Okay => String::from_str("200 OK\n"),
            Response::InvalidUsername => String::from_str("400 INVALID USERNAME\n"),
            Response::Bye => String::from_str("200 BYE\n"),
            Response::Sent => String::from_str("200 SENT\n"),
            Response::MessageFailed => String::from_str("400 MESSAGE FAILED\n"),
            Response::InvalidMessageFormat => String::from_str("400 INVALID MESSAGE FORMAT\n"),
            Response::UserstatusUpdated => String::from_str("200 USERSTATUS UPDATED\n"),
            Response::InvalidRequest => String::from_str("400 INVALID REQUEST\n"),
            Response::Board(board) => {
                let mut r = String::from_str("200 BOARD ");
                r.append(board.as_str());
                r.append("\n");
                r
            }
            Response::ServerError => String::from_str("500 SERVER ERROR\n"),
        }
    }
}

} // verus!
