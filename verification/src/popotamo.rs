use crate::text::{regex_match, decimal_u32, is_alphanumeric, parse_decimal_u32, regex_is_match};
use vstd::prelude::*;

verus! {

/// A Popotamo server.
#[derive(Copy, Clone, Debug, PartialEq, Eq, Hash, PartialOrd, Ord, Structural)]
pub enum PopotamoServer {
    PopotamoCom,
}

/// The id of a Popotamo user, in `[0, 1_000_000_000)`.
#[derive(Copy, Clone, Debug, PartialEq, Eq, Hash, PartialOrd, Ord, Structural)]
pub struct PopotamoUserId(u32);

/// A value out of the bounds of a [`PopotamoUserId`].
#[derive(Copy, Clone, Debug, PartialEq, Eq, Structural)]
pub struct PopotamoUserIdParseError;

impl View for PopotamoUserId {
    type V = u32;

    closed spec fn view(&self) -> u32 {
        self.0
    }
}

impl PopotamoUserId {
    pub fn new(value: u32) -> (r: Result<Self, PopotamoUserIdParseError>)
        ensures
            match r {
                Ok(v) => value < 1_000_000_000 && v@ == value,
                Err(_) => !(value < 1_000_000_000),
            },
    {
        if value < 1_000_000_000 {
            Ok(PopotamoUserId(value))
        } else {
            Err(PopotamoUserIdParseError)
        }
    }

    pub fn get(&self) -> (r: u32)
        ensures
            r == self@,
    {
        self.0
    }

    /// Reads an id written in decimal.
    pub fn from_decimal(s: &str) -> (r: Result<Self, PopotamoUserIdParseError>)
        ensures
            match r {
                Ok(v) => decimal_u32(s@) == Some(v@) && v@ < 1_000_000_000,
                Err(_) => !(decimal_u32(s@) matches Some(x) && x < 1_000_000_000),
            },
    {
        match parse_decimal_u32(s) {
            Some(x) => Self::new(x),
            None => Err(PopotamoUserIdParseError),
        }
    }
}

/// The handicap of a Popotamo profile, in `[0, 651)`.
#[derive(Copy, Clone, Debug, PartialEq, Eq, Hash, PartialOrd, Ord, Structural)]
pub struct PopotamoUserHandicap(u32);

/// A value out of the bounds of a [`PopotamoUserHandicap`].
#[derive(Copy, Clone, Debug, PartialEq, Eq, Structural)]
pub struct PopotamoUserHandicapParseError;

impl View for PopotamoUserHandicap {
    type V = u32;

    closed spec fn view(&self) -> u32 {
        self.0
    }
}

impl PopotamoUserHandicap {
    pub fn new(value: u32) -> (r: Result<Self, PopotamoUserHandicapParseError>)
        ensures
            match r {
                Ok(v) => value < 651 && v@ == value,
                Err(_) => !(value < 651),
            },
    {
        if value < 651 {
            Ok(PopotamoUserHandicap(value))
        } else {
            Err(PopotamoUserHandicapParseError)
        }
    }

    pub fn get(&self) -> (r: u32)
        ensures
            r == self@,
    {
        self.0
    }
}

/// The number of games played on a Popotamo profile, in `[0, 1_000_000_000)`.
#[derive(Copy, Clone, Debug, PartialEq, Eq, Hash, PartialOrd, Ord, Structural)]
pub struct PopotamoGamePlayed(u32);

/// A value out of the bounds of a [`PopotamoGamePlayed`].
#[derive(Copy, Clone, Debug, PartialEq, Eq, Structural)]
pub struct PopotamoGamePlayedParseError;

impl View for PopotamoGamePlayed {
    type V = u32;

    closed spec fn view(&self) -> u32 {
        self.0
    }
}

impl PopotamoGamePlayed {
    pub fn new(value: u32) -> (r: Result<Self, PopotamoGamePlayedParseError>)
        ensures
            match r {
                Ok(v) => value < 1_000_000_000 && v@ == value,
                Err(_) => !(value < 1_000_000_000),
            },
    {
        if value < 1_000_000_000 {
            Ok(PopotamoGamePlayed(value))
        } else {
            Err(PopotamoGamePlayedParseError)
        }
    }

    pub fn get(&self) -> (r: u32)
        ensures
            r == self@,
    {
        self.0
    }
}

/// The id of a Popotamo sub-profile, in `[0, 1_000_000_000)`.
#[derive(Copy, Clone, Debug, PartialEq, Eq, Hash, PartialOrd, Ord, Structural)]
pub struct PopotamoSubProfileId(u32);

/// A value out of the bounds of a [`PopotamoSubProfileId`].
#[derive(Copy, Clone, Debug, PartialEq, Eq, Structural)]
pub struct PopotamoSubProfileIdParseError;

impl View for PopotamoSubProfileId {
    type V = u32;

    closed spec fn view(&self) -> u32 {
        self.0
    }
}

impl PopotamoSubProfileId {
    pub fn new(value: u32) -> (r: Result<Self, PopotamoSubProfileIdParseError>)
        ensures
            match r {
                Ok(v) => value < 1_000_000_000 && v@ == value,
                Err(_) => !(value < 1_000_000_000),
            },
    {
        if value < 1_000_000_000 {
            Ok(PopotamoSubProfileId(value))
        } else {
            Err(PopotamoSubProfileIdParseError)
        }
    }

    pub fn get(&self) -> (r: u32)
        ensures
            r == self@,
    {
        self.0
    }
}

/// The level of a Popotamo skill, in `[0, 11)`.
#[derive(Copy, Clone, Debug, PartialEq, Eq, Hash, PartialOrd, Ord, Structural)]
pub struct PopotamoUserSkill(u32);

/// A value out of the bounds of a [`PopotamoUserSkill`].
#[derive(Copy, Clone, Debug, PartialEq, Eq, Structural)]
pub struct PopotamoUserSkillParseError;

impl View for PopotamoUserSkill {
    type V = u32;

    closed spec fn view(&self) -> u32 {
        self.0
    }
}

impl PopotamoUserSkill {
    pub fn new(value: u32) -> (r: Result<Self, PopotamoUserSkillParseError>)
        ensures
            match r {
                Ok(v) => value < 11 && v@ == value,
                Err(_) => !(value < 11),
            },
    {
        if value < 11 {
            Ok(PopotamoUserSkill(value))
        } else {
            Err(PopotamoUserSkillParseError)
        }
    }

    pub fn get(&self) -> (r: u32)
        ensures
            r == self@,
    {
        self.0
    }
}

/// A Popotamo efficiency count, in `[0, 1_000_000_000)`.
#[derive(Copy, Clone, Debug, PartialEq, Eq, Hash, PartialOrd, Ord, Structural)]
pub struct PopotamoEfficiency(u32);

/// A value out of the bounds of a [`PopotamoEfficiency`].
#[derive(Copy, Clone, Debug, PartialEq, Eq, Structural)]
pub struct PopotamoEfficiencyParseError;

impl View for PopotamoEfficiency {
    type V = u32;

    closed spec fn view(&self) -> u32 {
        self.0
    }
}

impl PopotamoEfficiency {
    pub fn new(value: u32) -> (r: Result<Self, PopotamoEfficiencyParseError>)
        ensures
            match r {
                Ok(v) => value < 1_000_000_000 && v@ == value,
                Err(_) => !(value < 1_000_000_000),
            },
    {
        if value < 1_000_000_000 {
            Ok(PopotamoEfficiency(value))
        } else {
            Err(PopotamoEfficiencyParseError)
        }
    }

    pub fn get(&self) -> (r: u32)
        ensures
            r == self@,
    {
        self.0
    }
}

/// The rank of a Popotamo user, in `[0, 69_342)`.
#[derive(Copy, Clone, Debug, PartialEq, Eq, Hash, PartialOrd, Ord, Structural)]
pub struct PopotamoUserRank(u32);

/// A value out of the bounds of a [`PopotamoUserRank`].
#[derive(Copy, Clone, Debug, PartialEq, Eq, Structural)]
pub struct PopotamoUserRankParseError;

impl View for PopotamoUserRank {
    type V = u32;

    closed spec fn view(&self) -> u32 {
        self.0
    }
}

impl PopotamoUserRank {
    pub fn new(value: u32) -> (r: Result<Self, PopotamoUserRankParseError>)
        ensures
            match r {
                Ok(v) => value < 69_342 && v@ == value,
                Err(_) => !(value < 69_342),
            },
    {
        if value < 69_342 {
            Ok(PopotamoUserRank(value))
        } else {
            Err(PopotamoUserRankParseError)
        }
    }

    pub fn get(&self) -> (r: u32)
        ensures
            r == self@,
    {
        self.0
    }
}

/// The score of a Popotamo user, in `[0, 69_342)`.
#[derive(Copy, Clone, Debug, PartialEq, Eq, Hash, PartialOrd, Ord, Structural)]
pub struct PopotamoScore(u32);

/// A value out of the bounds of a [`PopotamoScore`].
#[derive(Copy, Clone, Debug, PartialEq, Eq, Structural)]
pub struct PopotamoScoreParseError;

impl View for PopotamoScore {
    type V = u32;

    closed spec fn view(&self) -> u32 {
        self.0
    }
}

impl PopotamoScore {
    pub fn new(value: u32) -> (r: Result<Self, PopotamoScoreParseError>)
        ensures
            match r {
                Ok(v) => value < 69_342 && v@ == value,
                Err(_) => !(value < 69_342),
            },
    {
        if value < 69_342 {
            Ok(PopotamoScore(value))
        } else {
            Err(PopotamoScoreParseError)
        }
    }

    pub fn get(&self) -> (r: u32)
        ensures
            r == self@,
    {
        self.0
    }
}

/// The leaderboard of a Popotamo user, in `[1, 5)`.
#[derive(Copy, Clone, Debug, PartialEq, Eq, Hash, PartialOrd, Ord, Structural)]
pub struct PopotamoUserLeaderboard(u32);

/// A value out of the bounds of a [`PopotamoUserLeaderboard`].
#[derive(Copy, Clone, Debug, PartialEq, Eq, Structural)]
pub struct PopotamoUserLeaderboardParseError;

impl View for PopotamoUserLeaderboard {
    type V = u32;

    closed spec fn view(&self) -> u32 {
        self.0
    }
}

impl PopotamoUserLeaderboard {
    pub fn new(value: u32) -> (r: Result<Self, PopotamoUserLeaderboardParseError>)
        ensures
            match r {
                Ok(v) => 1 <= value < 5 && v@ == value,
                Err(_) => !(1 <= value < 5),
            },
    {
        if 1 <= value && value < 5 {
            Ok(PopotamoUserLeaderboard(value))
        } else {
            Err(PopotamoUserLeaderboardParseError)
        }
    }

    pub fn get(&self) -> (r: u32)
        ensures
            r == self@,
    {
        self.0
    }
}

/// The number of cups won by a Popotamo user, in `[0, 30)`.
#[derive(Copy, Clone, Debug, PartialEq, Eq, Hash, PartialOrd, Ord, Structural)]
pub struct PopotamoNbCupWon(u32);

/// A value out of the bounds of a [`PopotamoNbCupWon`].
#[derive(Copy, Clone, Debug, PartialEq, Eq, Structural)]
pub struct PopotamoNbCupWonParseError;

impl View for PopotamoNbCupWon {
    type V = u32;

    closed spec fn view(&self) -> u32 {
        self.0
    }
}

impl PopotamoNbCupWon {
    pub fn new(value: u32) -> (r: Result<Self, PopotamoNbCupWonParseError>)
        ensures
            match r {
                Ok(v) => value < 30 && v@ == value,
                Err(_) => !(value < 30),
            },
    {
        if value < 30 {
            Ok(PopotamoNbCupWon(value))
        } else {
            Err(PopotamoNbCupWonParseError)
        }
    }

    pub fn get(&self) -> (r: u32)
        ensures
            r == self@,
    {
        self.0
    }
}

/// The name of a Popotamo user: a string that matches `^[0-9A-Za-z_-]{1,12}$`.
#[derive(Clone, Debug, PartialEq, Eq, Hash, PartialOrd, Ord)]
pub struct PopotamoUsername(String);

/// A string that is not a valid [`PopotamoUsername`].
#[derive(Copy, Clone, Debug, PartialEq, Eq, Structural)]
pub struct PopotamoUsernameParseError;

impl View for PopotamoUsername {
    type V = Seq<char>;

    closed spec fn view(&self) -> Seq<char> {
        self.0@
    }
}

impl PopotamoUsername {
    /// Whether `s` is a valid name, one that matches `^[0-9A-Za-z_-]{1,12}$`:
    /// one to twelve ASCII letters, digits, underscores or hyphens.
    pub open spec fn accepts(s: Seq<char>) -> bool {
        1 <= s.len() <= 12 && forall|i: int|
            0 <= i < s.len() ==> is_alphanumeric(#[trigger] s[i]) || s[i] == '_' || s[i] == '-'
    }

    pub fn try_from_string(raw: String) -> (r: Result<Self, PopotamoUsernameParseError>)
        ensures
            match r {
                Ok(v) => Self::accepts(raw@) && v@ == raw@,
                Err(_) => !Self::accepts(raw@),
            },
            r is Ok <==> regex_match(r"^[0-9A-Za-z_-]{1,12}$"@, raw@) == Some(true),
    {
        match regex_is_match(r"^[0-9A-Za-z_-]{1,12}$", raw.as_str()) {
            Some(true) => Ok(PopotamoUsername(raw)),
            _ => Err(PopotamoUsernameParseError),
        }
    }

    pub fn as_str(&self) -> (r: &str)
        ensures
            r@ == self@,
    {
        self.0.as_str()
    }
}

/// The name of a Popotamo item: a string that matches `^[0-9A-Za-zéèê]{1,12}$`.
#[derive(Clone, Debug, PartialEq, Eq, Hash, PartialOrd, Ord)]
pub struct PopotamoUserItem(String);

/// A string that is not a valid [`PopotamoUserItem`].
#[derive(Copy, Clone, Debug, PartialEq, Eq, Structural)]
pub struct PopotamoUserItemParseError;

impl View for PopotamoUserItem {
    type V = Seq<char>;

    closed spec fn view(&self) -> Seq<char> {
        self.0@
    }
}

impl PopotamoUserItem {
    /// Whether `s` names an item, that is matches `^[0-9A-Za-zéèê]{1,12}$`:
    /// one to twelve ASCII letters or digits, or the letters é, è and ê.
    pub open spec fn accepts(s: Seq<char>) -> bool {
        1 <= s.len() <= 12 && forall|i: int|
            0 <= i < s.len() ==> is_alphanumeric(#[trigger] s[i]) || s[i] == 'é' || s[i] == 'è'
                || s[i] == 'ê'
    }

    pub fn try_from_string(raw: String) -> (r: Result<Self, PopotamoUserItemParseError>)
        ensures
            match r {
                Ok(v) => Self::accepts(raw@) && v@ == raw@,
                Err(_) => !Self::accepts(raw@),
            },
            r is Ok <==> regex_match(r"^[0-9A-Za-zéèê]{1,12}$"@, raw@) == Some(true),
    {
        match regex_is_match(r"^[0-9A-Za-zéèê]{1,12}$", raw.as_str()) {
            Some(true) => Ok(PopotamoUserItem(raw)),
            _ => Err(PopotamoUserItemParseError),
        }
    }

    pub fn as_str(&self) -> (r: &str)
        ensures
            r@ == self@,
    {
        self.0.as_str()
    }
}

/// A reference to a Popotamo user.
#[derive(Copy, Clone, Debug, PartialEq, Eq, Hash, PartialOrd, Ord, Structural)]
pub struct PopotamoUserIdRef {
    pub server: PopotamoServer,
    pub id: PopotamoUserId,
}

/// The password of a Popotamo account.
#[derive(Clone, Debug, PartialEq, Eq, Hash, PartialOrd, Ord)]
pub struct PopotamoPassword(String);

impl View for PopotamoPassword {
    type V = Seq<char>;

    closed spec fn view(&self) -> Seq<char> {
        self.0@
    }
}

impl PopotamoPassword {
    pub fn new(raw: String) -> (r: Self)
        ensures
            r@ == raw@,
    {
        Self(raw)
    }

    pub fn as_str(&self) -> (r: &str)
        ensures
            r@ == self@,
    {
        self.0.as_str()
    }
}

/// The credentials of a Popotamo account.
#[derive(Clone, Debug, PartialEq, Eq, Hash, PartialOrd, Ord)]
pub struct PopotamoCredentials {
    pub username: PopotamoUsername,
    pub password: PopotamoPassword,
}

/// A Popotamo user, as shown in lists.
#[derive(Clone, Debug, PartialEq, Eq, Hash, PartialOrd, Ord)]
pub struct ShortPopotamoUser {
    pub server: PopotamoServer,
    pub id: PopotamoUserId,
    pub username: PopotamoUsername,
}

impl ShortPopotamoUser {
    /// The reference to this user.
    pub fn as_ref(&self) -> (r: PopotamoUserIdRef)
        ensures
            r.server == self.server,
            r.id == self.id,
    {
        PopotamoUserIdRef { server: self.server, id: self.id }
    }
}

/// The skill levels of a Popotamo profile.
#[derive(Clone, Debug, PartialEq, Eq, Hash, PartialOrd, Ord)]
pub struct PopotamoUserSkills {
    pub speed: PopotamoUserSkill,
    pub creativity: PopotamoUserSkill,
    pub wisdom: PopotamoUserSkill,
}

/// How often a Popotamo profile ended at each of the first five places.
#[derive(Clone, Debug, PartialEq, Eq, Hash, PartialOrd, Ord)]
pub struct PopotamoUserEfficiency {
    pub first_place: PopotamoEfficiency,
    pub second_place: PopotamoEfficiency,
    pub third_place: PopotamoEfficiency,
    pub fourth_place: PopotamoEfficiency,
    pub fifth_place: PopotamoEfficiency,
}

/// One of the profiles of a Popotamo user.
#[derive(Clone, Debug, PartialEq, Eq, Hash, PartialOrd, Ord)]
pub struct PopotamoSubProfile {
    pub id: PopotamoSubProfileId,
    pub items: Vec<PopotamoUserItem>,
    pub handicap: PopotamoUserHandicap,
    pub game_played: PopotamoGamePlayed,
    pub skills: PopotamoUserSkills,
    pub efficiency: PopotamoUserEfficiency,
}

/// The user logged in, as shown at the top right of each page.
#[derive(Clone, Debug, PartialEq, Eq, Hash, PartialOrd, Ord)]
pub struct PopotamoSessionUser {
    pub user: ShortPopotamoUser,
}

/// A Popotamo profile page.
#[derive(Clone, Debug, PartialEq, Eq)]
pub struct PopotamoProfileResponse {
    pub session_user: Option<PopotamoSessionUser>,
    pub profile: PopotamoProfile,
}

/// The profile of a Popotamo user.
#[derive(Clone, Debug, PartialEq, Eq)]
pub struct PopotamoProfile {
    pub user: ShortPopotamoUser,
    pub score: PopotamoScore,
    pub rank: PopotamoUserRank,
    pub ismoderator: bool,
    pub nb_cups_won: PopotamoNbCupWon,
    pub leaderboard: PopotamoUserLeaderboard,
    pub sub_profiles: Vec<PopotamoSubProfile>,
}


/// A Popotamo name is one to twelve characters, each an ASCII digit, an ASCII
/// letter, an underscore or a hyphen: a space or any other sign is refused.
pub proof fn law_popotamo_username_alphabet(s: Seq<char>)
    ensures
        PopotamoUsername::accepts(s) <==> (1 <= s.len() <= 12 && forall|i: int|
            0 <= i < s.len() ==> ('0' <= #[trigger] s[i] <= '9') || ('A' <= s[i] <= 'Z') || ('a'
                <= s[i] <= 'z') || s[i] == '_' || s[i] == '-'),
{
}

/// A Popotamo item name is one to twelve characters, each an ASCII digit, an
/// ASCII letter or one of the letters é, è and ê: hyphens, underscores and
/// spaces are refused.
pub proof fn law_popotamo_item_alphabet(s: Seq<char>)
    ensures
        PopotamoUserItem::accepts(s) <==> (1 <= s.len() <= 12 && forall|i: int|
            0 <= i < s.len() ==> ('0' <= #[trigger] s[i] <= '9') || ('A' <= s[i] <= 'Z') || ('a'
                <= s[i] <= 'z') || s[i] == 'é' || s[i] == 'è' || s[i] == 'ê'),
        PopotamoUserItem::accepts(s) ==> forall|i: int|
            0 <= i < s.len() ==> #[trigger] s[i] != '-' && s[i] != '_' && s[i] != ' ',
{
}

} // verus!
