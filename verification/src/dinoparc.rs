use crate::text::{regex_match, is_alphanumeric, regex_is_match, str_equals};
use crate::time::Instant;
use vstd::prelude::*;

verus! {

/// A Dinoparc server.
#[derive(Copy, Clone, Debug, PartialEq, Eq, Hash, PartialOrd, Ord, Structural)]
pub enum DinoparcServer {
    DinoparcCom,
    EnDinoparcCom,
    SpDinoparcCom,
}

/// The domain name of each server.
pub open spec fn server_name(s: DinoparcServer) -> Seq<char> {
    match s {
        DinoparcServer::DinoparcCom => "dinoparc.com"@,
        DinoparcServer::EnDinoparcCom => "en.dinoparc.com"@,
        DinoparcServer::SpDinoparcCom => "sp.dinoparc.com"@,
    }
}

/// A string that names no Dinoparc server.
#[derive(Copy, Clone, Debug, PartialEq, Eq, Hash, PartialOrd, Ord, Structural)]
pub struct DinoparcServerParseError;

impl DinoparcServerParseError {
    /// The text that describes this error.
    pub fn message(&self) -> (r: String)
        ensures
            r@ == "DinoparcServerParseError"@,
    {
        "DinoparcServerParseError".to_owned()
    }
}

impl DinoparcServer {
    pub fn as_str(&self) -> (r: &'static str)
        ensures
            r@ == server_name(*self),
    {
        match self {
            DinoparcServer::DinoparcCom => "dinoparc.com",
            DinoparcServer::EnDinoparcCom => "en.dinoparc.com",
            DinoparcServer::SpDinoparcCom => "sp.dinoparc.com",
        }
    }

    /// All the servers, in declaration order.
    pub fn iter() -> (r: Vec<Self>)
        ensures
            r@ == seq![
                DinoparcServer::DinoparcCom,
                DinoparcServer::EnDinoparcCom,
                DinoparcServer::SpDinoparcCom,
            ],
    {
        let r = vec![
            DinoparcServer::DinoparcCom,
            DinoparcServer::EnDinoparcCom,
            DinoparcServer::SpDinoparcCom,
        ];
        assert(r@ =~= seq![
            DinoparcServer::DinoparcCom,
            DinoparcServer::EnDinoparcCom,
            DinoparcServer::SpDinoparcCom,
        ]);
        r
    }

    /// The server whose domain name is `s`.
    pub fn parse(s: &str) -> (r: Result<Self, DinoparcServerParseError>)
        ensures
            match r {
                Ok(v) => server_name(v) == s@,
                Err(_) => forall|v: DinoparcServer| server_name(v) != s@,
            },
    {
        if str_equals(s, "dinoparc.com") {
            Ok(DinoparcServer::DinoparcCom)
        } else if str_equals(s, "en.dinoparc.com") {
            Ok(DinoparcServer::EnDinoparcCom)
        } else if str_equals(s, "sp.dinoparc.com") {
            Ok(DinoparcServer::SpDinoparcCom)
        } else {
            Err(DinoparcServerParseError)
        }
    }
}

impl core::str::FromStr for DinoparcServer {
    type Err = DinoparcServerParseError;

    fn from_str(s: &str) -> (r: Result<Self, DinoparcServerParseError>)
        ensures
            match r {
                Ok(v) => server_name(v) == s@,
                Err(_) => forall|v: DinoparcServer| server_name(v) != s@,
            },
    {
        Self::parse(s)
    }
}

/// Distinct servers have distinct names, so that a name read back gives the
/// server it was written from.
pub proof fn law_server_name_injective(a: DinoparcServer, b: DinoparcServer)
    ensures
        server_name(a) == server_name(b) ==> a == b,
{
    reveal_strlit("dinoparc.com");
    reveal_strlit("en.dinoparc.com");
    reveal_strlit("sp.dinoparc.com");
    if server_name(a) == server_name(b) && a != b {
        assert(server_name(a).len() == server_name(b).len());
        assert(server_name(a)[0] == server_name(b)[0]);
    }
}

/// The id of a Dinoparc user, in `[1, 1_000_000_000)`.
#[derive(Copy, Clone, Debug, PartialEq, Eq, Hash, PartialOrd, Ord, Structural)]
pub struct DinoparcUserId(u32);

/// A value out of the bounds of a [`DinoparcUserId`].
#[derive(Copy, Clone, Debug, PartialEq, Eq, Structural)]
pub struct DinoparcUserIdParseError;

impl View for DinoparcUserId {
    type V = u32;

    closed spec fn view(&self) -> u32 {
        self.0
    }
}

impl DinoparcUserId {
    pub fn new(value: u32) -> (r: Result<Self, DinoparcUserIdParseError>)
        ensures
            match r {
                Ok(v) => 1 <= value < 1_000_000_000 && v@ == value,
                Err(_) => !(1 <= value < 1_000_000_000),
            },
    {
        if 1 <= value && value < 1_000_000_000 {
            Ok(DinoparcUserId(value))
        } else {
            Err(DinoparcUserIdParseError)
        }
    }

    pub fn get(&self) -> (r: u32)
        ensures
            r == self@,
    {
        self.0
    }
}

/// The name of a Dinoparc user: a string that matches `^[0-9A-Za-z-]{1,14}$`.
#[derive(Clone, Debug, PartialEq, Eq, Hash, PartialOrd, Ord)]
pub struct DinoparcUsername(String);

/// A string that is not a valid [`DinoparcUsername`].
#[derive(Copy, Clone, Debug, PartialEq, Eq, Structural)]
pub struct DinoparcUsernameParseError;

impl View for DinoparcUsername {
    type V = Seq<char>;

    closed spec fn view(&self) -> Seq<char> {
        self.0@
    }
}

impl DinoparcUsername {
    /// Whether `s` is a valid name, one that matches `^[0-9A-Za-z-]{1,14}$`:
    /// one to fourteen ASCII letters, digits or hyphens.
    pub open spec fn accepts(s: Seq<char>) -> bool {
        1 <= s.len() <= 14 && forall|i: int|
            0 <= i < s.len() ==> is_alphanumeric(#[trigger] s[i]) || s[i] == '-'
    }

    pub fn try_from_string(raw: String) -> (r: Result<Self, DinoparcUsernameParseError>)
        ensures
            match r {
                Ok(v) => Self::accepts(raw@) && v@ == raw@,
                Err(_) => !Self::accepts(raw@),
            },
            r is Ok <==> regex_match(r"^[0-9A-Za-z-]{1,14}$"@, raw@) == Some(true),
    {
        match regex_is_match(r"^[0-9A-Za-z-]{1,14}$", raw.as_str()) {
            Some(true) => Ok(DinoparcUsername(raw)),
            _ => Err(DinoparcUsernameParseError),
        }
    }

    pub fn as_str(&self) -> (r: &str)
        ensures
            r@ == self@,
    {
        self.0.as_str()
    }
}

/// Which Dinoparc user to look up, as of when.
#[derive(Clone, Debug, PartialEq, Eq, Hash, PartialOrd, Ord)]
pub struct GetDinoparcUserOptions {
    pub server: DinoparcServer,
    pub id: DinoparcUserId,
    pub time: Option<Instant>,
}

/// A Dinoparc user, as shown in lists.
#[derive(Clone, Debug, PartialEq, Eq, Hash, PartialOrd, Ord)]
pub struct ShortDinoparcUser {
    pub server: DinoparcServer,
    pub id: DinoparcUserId,
    pub username: DinoparcUsername,
}

/// A Dinoparc user, as archived at some instant.
#[derive(Clone, Debug, PartialEq, Eq, Hash, PartialOrd, Ord)]
pub struct ArchivedDinoparcUser {
    pub server: DinoparcServer,
    pub id: DinoparcUserId,
    pub username: DinoparcUsername,
    pub archived_at: Instant,
}

/// A reference to a Dinoparc user.
#[derive(Clone, Debug, PartialEq, Eq, Hash, PartialOrd, Ord)]
pub struct DinoparcUserIdRef {
    pub server: DinoparcServer,
    pub id: DinoparcUserId,
}


/// A Dinoparc name is one to fourteen characters, each an ASCII digit, an
/// ASCII letter or a hyphen: an underscore, a space or any other sign is
/// refused.
pub proof fn law_dinoparc_username_alphabet(s: Seq<char>)
    ensures
        DinoparcUsername::accepts(s) <==> (1 <= s.len() <= 14 && forall|i: int|
            0 <= i < s.len() ==> ('0' <= #[trigger] s[i] <= '9') || ('A' <= s[i] <= 'Z') || ('a'
                <= s[i] <= 'z') || s[i] == '-'),
        DinoparcUsername::accepts(s) ==> forall|i: int|
            0 <= i < s.len() ==> #[trigger] s[i] != '_' && s[i] != ' ',
{
}

} // verus!
