use crate::text::{regex_match, is_digit, regex_is_match};
use vstd::prelude::*;

verus! {

/// The id of a Twinoid user: a string that matches `^[1-9][0-9]{0,8}$`.
#[derive(Clone, Debug, PartialEq, Eq, Hash, PartialOrd, Ord)]
pub struct TwinoidUserId(String);

impl View for TwinoidUserId {
    type V = Seq<char>;

    closed spec fn view(&self) -> Seq<char> {
        self.0@
    }
}

impl TwinoidUserId {
    /// Whether `s` is a valid id, one that matches `^[1-9][0-9]{0,8}$`: one to
    /// nine decimal digits, the first of them not zero.
    pub open spec fn accepts(s: Seq<char>) -> bool {
        1 <= s.len() <= 9 && '1' <= s[0] <= '9' && forall|i: int| 1 <= i < s.len() ==> is_digit(#[trigger] s[i])
    }

    pub fn try_from_string(raw: String) -> (r: Result<Self, ()>)
        ensures
            match r {
                Ok(v) => Self::accepts(raw@) && v@ == raw@,
                Err(_) => !Self::accepts(raw@),
            },
            r is Ok <==> regex_match(r"^[1-9][0-9]{0,8}$"@, raw@) == Some(true),
    {
        match regex_is_match(r"^[1-9][0-9]{0,8}$", raw.as_str()) {
            Some(true) => Ok(TwinoidUserId(raw)),
            _ => Err(()),
        }
    }

    pub fn as_str(&self) -> (r: &str)
        ensures
            r@ == self@,
    {
        self.0.as_str()
    }
}

/// The display name of a Twinoid user: a string that matches `^.{1,100}$`.
#[derive(Clone, Debug, PartialEq, Eq, Hash, PartialOrd, Ord)]
pub struct TwinoidUserDisplayName(String);

impl View for TwinoidUserDisplayName {
    type V = Seq<char>;

    closed spec fn view(&self) -> Seq<char> {
        self.0@
    }
}

impl TwinoidUserDisplayName {
    /// Whether `s` is a valid display name, one that matches `^.{1,100}$`: one
    /// to a hundred characters, none of them a new line.
    pub open spec fn accepts(s: Seq<char>) -> bool {
        1 <= s.len() <= 100 && forall|i: int| 0 <= i < s.len() ==> #[trigger] s[i] != '\n'
    }

    pub fn try_from_string(raw: String) -> (r: Result<Self, ()>)
        ensures
            match r {
                Ok(v) => Self::accepts(raw@) && v@ == raw@,
                Err(_) => !Self::accepts(raw@),
            },
            r is Ok <==> regex_match(r"^.{1,100}$"@, raw@) == Some(true),
    {
        match regex_is_match(r"^.{1,100}$", raw.as_str()) {
            Some(true) => Ok(TwinoidUserDisplayName(raw)),
            _ => Err(()),
        }
    }

    pub fn as_str(&self) -> (r: &str)
        ensures
            r@ == self@,
    {
        self.0.as_str()
    }
}

/// A Twinoid user, as shown in lists.
#[derive(Clone, Debug, PartialEq, Eq, Hash, PartialOrd, Ord)]
pub struct ShortTwinoidUser {
    pub id: TwinoidUserId,
    pub display_name: TwinoidUserDisplayName,
}

/// A reference to a Twinoid user.
#[derive(Clone, Debug, PartialEq, Eq, Hash, PartialOrd, Ord)]
pub struct TwinoidUserIdRef {
    pub id: TwinoidUserId,
}


/// A Twinoid id is one to nine decimal digits, the first of them not zero.
pub proof fn law_twinoid_user_id_alphabet(s: Seq<char>)
    ensures
        TwinoidUserId::accepts(s) <==> (1 <= s.len() <= 9 && '1' <= s[0] <= '9' && forall|i: int|
            0 <= i < s.len() ==> '0' <= #[trigger] s[i] <= '9'),
{
    if 1 <= s.len() <= 9 && '1' <= s[0] <= '9' {
        assert(is_digit(s[0]));
    }
}

/// A Twinoid display name is one to a hundred characters on a single line.
pub proof fn law_twinoid_display_name_alphabet(s: Seq<char>)
    ensures
        TwinoidUserDisplayName::accepts(s) <==> (1 <= s.len() <= 100 && !s.contains('\n')),
{
    if !s.contains('\n') {
        assert forall|i: int| 0 <= i < s.len() implies #[trigger] s[i] != '\n' by {
            if s[i] == '\n' {
                assert(s.contains('\n'));
            }
        }
    }
}

} // verus!
