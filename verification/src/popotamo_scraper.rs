use crate::popotamo::{
    PopotamoServer, PopotamoSessionUser, PopotamoUserId, PopotamoUserItem, PopotamoUsername,
    ShortPopotamoUser,
};
use crate::text::{count_char, decimal_u32, law_split_pieces, nth_piece, split_nth};
use vstd::prelude::*;

verus! {

/// The URL that `href` points to from the page at `base`, as text.
pub uninterp spec fn url_joined(base: Seq<char>, href: Seq<char>) -> Option<Seq<char>>;

/// The segments of the path of the URL `url`, when it has a path.
pub uninterp spec fn url_segments(url: Seq<char>) -> Option<Seq<Seq<char>>>;

/// Resolves `href` against `base` with `reqwest::Url::join` (once `base` is
/// parsed with `reqwest::Url::parse`), and writes the result out. It fails when
/// either is not a valid URL; the result is taken to depend on the two strings
/// alone, and nothing more is claimed of it.
#[verifier::external_body]
fn join_url(base: &str, href: &str) -> (r: Option<String>)
    ensures
        match r {
            Some(u) => url_joined(base@, href@) == Some(u@),
            None => url_joined(base@, href@) is None,
        },
{
    match reqwest::Url::parse(base) {
        Ok(b) => match b.join(href) {
            Ok(u) => Some(u.to_string()),
            Err(_) => None,
        },
        Err(_) => None,
    }
}

/// The segments of the path of `url` (once parsed with `reqwest::Url::parse`),
/// as `reqwest::Url::path_segments` lists them; `None` when `url` is not a
/// valid URL or cannot be a base. As documented, a listing holds at least one
/// segment; nothing more is claimed of it.
#[verifier::external_body]
fn url_path_segments(url: &str) -> (r: Option<Vec<String>>)
    ensures
        match r {
            Some(v) => url_segments(url@) == Some(v@.map_values(|x: String| x@)) && v@.len() >= 1,
            None => url_segments(url@) is None,
        },
{
    match reqwest::Url::parse(url) {
        Ok(u) => u.path_segments().map(|segments| segments.map(|x| x.to_owned()).collect()),
        Err(_) => None,
    }
}

/// Why a Popotamo page could not be read.
#[derive(Clone, Debug, PartialEq, Eq)]
pub enum ScraperError {
    DuplicateSessionBox,
    NonUniqueSessionUserRewards,
    MissingSessionUserLink,
    NonUniqueSessionUserLinkText,
    InvalidUserId(String),
    InvalidUsername(String),
    MissingLinkHref,
    InvalidUserLink(String),
    MissingProfileUserIdLink,
    MissingH2Selector,
    MissingProfileUsername,
    MissingProfileUserItems,
    MissingProfileUserItem,
    InvalidItemName(String),
    InvalidSubProfileId(String),
    IteratorError,
    MissingIDAttribute,
    MissingHandicapTDSelector,
    MissingHandicapValue,
    InvalidHandicapValue(String),
    MissingGamePlayedTDSelector,
    MissingGamePlayedValue,
    InvalidGamePlayedValue(String),
    MissingSpeedDivSelector,
    MissingSpeedValue,
    InvalidSpeedValue(String),
    MissingCreativityDivSelector,
    MissingCreativityValue,
    InvalidCreativityValue(String),
    MissingWisdomDivSelector,
    MissingWisdomValue,
    InvalidWisdomValue(String),
    MissingProfileEfficiency,
    MissingEfficiencyValue,
    InvalidEfficiencyValue(String),
}

/// A link of a page: its `href` attribute and its text nodes.
pub struct HtmlLink {
    pub href: Option<String>,
    pub texts: Vec<String>,
}

/// What the scraper reads of a Popotamo page.
pub struct PopotamoPage {
    /// The session boxes (`#menu table#sheet`); of each, its reward blocks
    /// (`div.rewards`); of each, its links (`a`).
    pub session_boxes: Vec<Vec<Vec<HtmlLink>>>,
    /// The `href` attributes of the position links (`a.position`).
    pub position_links: Vec<Option<String>>,
    /// The text nodes of each profile heading (`h2.mainsheet`).
    pub profile_headings: Vec<Vec<String>>,
    /// The sub-profiles (`div[id^='profile_']`); of each, its item cells
    /// (`td.opt`); of each, the `alt` attributes of its images (`img`).
    pub sub_profiles: Vec<Vec<Vec<Option<String>>>>,
}

/// What every page tells: its server, and the user logged in, if any.
pub struct ScraperContext {
    pub server: PopotamoServer,
    pub session: Option<PopotamoSessionUser>,
}

/// The second segment of the path of the URL that `href` points to from `root`.
pub open spec fn link_user_id_text(root: Seq<char>, href: Seq<char>) -> Option<Seq<char>> {
    match url_joined(root, href) {
        None => None,
        Some(u) => match url_segments(u) {
            Some(segments) if segments.len() > 1 => Some(segments[1]),
            _ => None,
        },
    }
}

/// The id that the decimal text `s` denotes, if it is a valid one.
pub open spec fn user_id_value(s: Seq<char>) -> Option<u32> {
    match decimal_u32(s) {
        Some(x) if x < 1_000_000_000 => Some(x),
        _ => None,
    }
}

/// Whether `r` is what reading the context of `page` gives, links being
/// resolved against `root`.
pub open spec fn context_result(
    page: PopotamoPage,
    root: Seq<char>,
    r: Result<ScraperContext, ScraperError>,
) -> bool {
    let boxes = page.session_boxes@;
    if boxes.len() > 1 {
        r == Err::<ScraperContext, ScraperError>(ScraperError::DuplicateSessionBox)
    } else if boxes.len() == 0 {
        r matches Ok(c) && c.server == PopotamoServer::PopotamoCom && c.session is None
    } else if boxes[0]@.len() != 1 {
        r == Err::<ScraperContext, ScraperError>(ScraperError::NonUniqueSessionUserRewards)
    } else if boxes[0]@[0]@.len() == 0 {
        r == Err::<ScraperContext, ScraperError>(ScraperError::MissingSessionUserLink)
    } else {
        let link = boxes[0]@[0]@[0];
        match link.href {
            None => r == Err::<ScraperContext, ScraperError>(ScraperError::MissingLinkHref),
            Some(href) => match link_user_id_text(root, href@) {
                None => r matches Err(ScraperError::InvalidUserLink(h)) && h@ == href@,
                Some(id_text) => if user_id_value(id_text) is None {
                    r matches Err(ScraperError::InvalidUserId(t)) && t@ == id_text
                } else if link.texts@.len() != 1 {
                    r == Err::<ScraperContext, ScraperError>(
                        ScraperError::NonUniqueSessionUserLinkText,
                    )
                } else if !PopotamoUsername::accepts(link.texts@[0]@) {
                    r matches Err(ScraperError::InvalidUsername(t)) && t@ == link.texts@[0]@
                } else {
                    r matches Ok(c) && {
                        &&& c.server == PopotamoServer::PopotamoCom
                        &&& c.session matches Some(s) && {
                            &&& s.user.server == PopotamoServer::PopotamoCom
                            &&& Some(s.user.id@) == user_id_value(id_text)
                            &&& s.user.username@ == link.texts@[0]@
                        }
                    }
                },
            },
        }
    }
}

/// Whether the context of `page` can be read: nobody is logged in, or the
/// session box shows a valid user.
pub open spec fn context_succeeds(page: PopotamoPage, root: Seq<char>) -> bool {
    let boxes = page.session_boxes@;
    ||| boxes.len() == 0
    ||| {
        &&& boxes.len() == 1
        &&& boxes[0]@.len() == 1
        &&& boxes[0]@[0]@.len() > 0
        &&& boxes[0]@[0]@[0].href matches Some(href) && (link_user_id_text(root, href@) matches Some(
            id_text,
        ) && user_id_value(id_text) is Some)
        &&& boxes[0]@[0]@[0].texts@.len() == 1
        &&& PopotamoUsername::accepts(boxes[0]@[0]@[0].texts@[0]@)
    }
}

/// Reads the server of a page and its user logged in, from the session box
/// of the page (there is none when nobody is logged in). `root` is the URL of
/// the site, against which links are resolved.
pub fn scrape_context(page: &PopotamoPage, root: &str) -> (r: Result<ScraperContext, ScraperError>)
    ensures
        context_result(*page, root@, r),
        r is Ok <==> context_succeeds(*page, root@),
{
    let server = PopotamoServer::PopotamoCom;
    if page.session_boxes.len() > 1 {
        return Err(ScraperError::DuplicateSessionBox);
    }
    if page.session_boxes.len() == 0 {
        return Ok(ScraperContext { server, session: None });
    }
    let rewards = &page.session_boxes[0];
    if rewards.len() != 1 {
        return Err(ScraperError::NonUniqueSessionUserRewards);
    }
    let links = &rewards[0];
    if links.len() == 0 {
        return Err(ScraperError::MissingSessionUserLink);
    }
    let link = &links[0];
    let href = match &link.href {
        Some(h) => h.as_str(),
        None => {
            return Err(ScraperError::MissingLinkHref);
        },
    };
    let url = match join_url(root, href) {
        Some(u) => u,
        None => {
            return Err(ScraperError::InvalidUserLink(href.to_owned()));
        },
    };
    let segments = match url_path_segments(url.as_str()) {
        Some(s) => s,
        None => {
            return Err(ScraperError::InvalidUserLink(href.to_owned()));
        },
    };
    if segments.len() <= 1 {
        return Err(ScraperError::InvalidUserLink(href.to_owned()));
    }
    let id_text = segments[1].as_str();
    proof {
        assert(segments@.map_values(|x: String| x@)[1] == id_text@);
    }
    let id = match PopotamoUserId::from_decimal(id_text) {
        Ok(id) => id,
        Err(_) => {
            return Err(ScraperError::InvalidUserId(id_text.to_owned()));
        },
    };
    if link.texts.len() != 1 {
        return Err(ScraperError::NonUniqueSessionUserLinkText);
    }
    let text = &link.texts[0];
    let username = match PopotamoUsername::try_from_string(text.clone()) {
        Ok(u) => u,
        Err(_) => {
            return Err(ScraperError::InvalidUsername(text.clone()));
        },
    };
    Ok(
        ScraperContext {
            server,
            session: Some(PopotamoSessionUser { user: ShortPopotamoUser { server, id, username } }),
        },
    )
}

/// Whether `r` is what reading the id of the profile of `page` gives, links
/// being resolved against `root`.
pub open spec fn id_result(page: PopotamoPage, root: Seq<char>, r: Result<PopotamoUserId, ScraperError>) -> bool {
    if page.position_links@.len() == 0 {
        r == Err::<PopotamoUserId, ScraperError>(ScraperError::MissingProfileUserIdLink)
    } else {
        match page.position_links@[0] {
            None => r == Err::<PopotamoUserId, ScraperError>(ScraperError::MissingLinkHref),
            Some(href) => match url_joined(root, href@) {
                None => r matches Err(ScraperError::InvalidUserLink(h)) && h@ == href@,
                Some(url) => match nth_piece(url, '=', 1) {
                    None => r matches Err(ScraperError::InvalidUserLink(h)) && h@ == href@,
                    Some(id_text) => match user_id_value(id_text) {
                        None => r matches Err(ScraperError::InvalidUserId(t)) && t@ == id_text,
                        Some(v) => r matches Ok(id) && id@ == v,
                    },
                },
            },
        }
    }
}

/// Whether the id of the profile of `page` can be read.
pub open spec fn id_succeeds(page: PopotamoPage, root: Seq<char>) -> bool {
    &&& page.position_links@.len() > 0
    &&& page.position_links@[0] matches Some(href) && (url_joined(root, href@) matches Some(url) && (
    nth_piece(url, '=', 1) matches Some(id_text) && user_id_value(id_text) is Some))
}

/// The id that the profile of a page shows, read from the first position
/// link (`a.position`): the text after the first `=` of the URL it points to
/// from `root`, up to the next `=`.
pub fn scrape_id(page: &PopotamoPage, root: &str) -> (r: Result<PopotamoUserId, ScraperError>)
    ensures
        id_result(*page, root@, r),
        r is Ok <==> id_succeeds(*page, root@),
{
    if page.position_links.len() == 0 {
        return Err(ScraperError::MissingProfileUserIdLink);
    }
    let href = match &page.position_links[0] {
        Some(h) => h.as_str(),
        None => {
            return Err(ScraperError::MissingLinkHref);
        },
    };
    let url = match join_url(root, href) {
        Some(u) => u,
        None => {
            return Err(ScraperError::InvalidUserLink(href.to_owned()));
        },
    };
    let id_text = match split_nth(url.as_str(), '=', 1) {
        Some(t) => t,
        None => {
            return Err(ScraperError::InvalidUserLink(href.to_owned()));
        },
    };
    match PopotamoUserId::from_decimal(id_text.as_str()) {
        Ok(id) => Ok(id),
        Err(_) => Err(ScraperError::InvalidUserId(id_text)),
    }
}

/// The name that the profile heading shows: its sixth text node holds it as
/// its second word, on the first line.
pub open spec fn heading_username(texts: Seq<Seq<char>>) -> Option<Seq<char>> {
    if texts.len() <= 5 {
        None
    } else {
        match nth_piece(texts[5], ' ', 1) {
            None => None,
            Some(word) => nth_piece(word, '\n', 0),
        }
    }
}

/// Whether `r` is what reading the name of the user whose profile `page`
/// shows gives.
pub open spec fn username_result(page: PopotamoPage, r: Result<PopotamoUsername, ScraperError>) -> bool {
    if page.profile_headings@.len() != 1 {
        r == Err::<PopotamoUsername, ScraperError>(ScraperError::MissingH2Selector)
    } else {
        match heading_username(page.profile_headings@[0]@.map_values(|t: String| t@)) {
            None => r == Err::<PopotamoUsername, ScraperError>(
                ScraperError::MissingProfileUsername,
            ),
            Some(name) => if PopotamoUsername::accepts(name) {
                r matches Ok(u) && u@ == name
            } else {
                r matches Err(ScraperError::InvalidUsername(t)) && t@ == name
            },
        }
    }
}

/// Whether the name of the user whose profile `page` shows can be read.
pub open spec fn username_succeeds(page: PopotamoPage) -> bool {
    &&& page.profile_headings@.len() == 1
    &&& heading_username(page.profile_headings@[0]@.map_values(|t: String| t@)) matches Some(name)
        && PopotamoUsername::accepts(name)
}

/// The name of the user whose profile a page shows, read from its unique
/// profile heading (`h2.mainsheet`).
pub fn scrape_username(page: &PopotamoPage) -> (r: Result<PopotamoUsername, ScraperError>)
    ensures
        username_result(*page, r),
        r is Ok <==> username_succeeds(*page),
{
    if page.profile_headings.len() != 1 {
        return Err(ScraperError::MissingH2Selector);
    }
    let texts = &page.profile_headings[0];
    let ghost views = texts@.map_values(|t: String| t@);
    if texts.len() <= 5 {
        return Err(ScraperError::MissingProfileUsername);
    }
    assert(views[5] == texts@[5]@);
    let word = match split_nth(texts[5].as_str(), ' ', 1) {
        Some(w) => w,
        None => {
            return Err(ScraperError::MissingProfileUsername);
        },
    };
    let name = match split_nth(word.as_str(), '\n', 0) {
        Some(n) => n,
        None => {
            return Err(ScraperError::MissingProfileUsername);
        },
    };
    let copy = name.clone();
    match PopotamoUsername::try_from_string(name) {
        Ok(u) => Ok(u),
        Err(_) => Err(ScraperError::InvalidUsername(copy)),
    }
}

/// Whether `alt`, the `alt` attribute of an item image, names an item.
pub open spec fn item_alt_ok(alt: Option<String>) -> bool {
    alt matches Some(a) && PopotamoUserItem::accepts(a@)
}

/// Whether the item cells of a sub-profile (for each cell, the `alt`
/// attributes of its images) make a list of items: there is one cell, and each
/// of its images names an item.
pub open spec fn items_ok(cells: Seq<Vec<Option<String>>>) -> bool {
    cells.len() == 1 && forall|i: int| 0 <= i < cells[0]@.len() ==> item_alt_ok(#[trigger] cells[0]@[i])
}

/// Whether `items` are the items that the cells name, in order.
pub open spec fn items_match(cells: Seq<Vec<Option<String>>>, items: Seq<PopotamoUserItem>) -> bool {
    &&& items.len() == cells[0]@.len()
    &&& forall|i: int|
        0 <= i < items.len() ==> (cells[0]@[i] matches Some(a) && (#[trigger] items[i])@ == a@)
}

/// Whether `e` is the error that reading items from `cells` meets: a missing
/// or extra cell, or else the first image that names no item.
pub open spec fn items_error(cells: Seq<Vec<Option<String>>>, e: ScraperError) -> bool {
    if cells.len() != 1 {
        e == ScraperError::MissingProfileUserItems
    } else {
        let alts = cells[0]@;
        exists|k: int|
            0 <= k < alts.len() && !item_alt_ok(#[trigger] alts[k]) && (forall|j: int|
                0 <= j < k ==> item_alt_ok(#[trigger] alts[j])) && match alts[k] {
                None => e == ScraperError::MissingProfileUserItem,
                Some(a) => e matches ScraperError::InvalidItemName(t) && t@ == a@,
            }
    }
}

/// The items of a sub-profile, read from its unique item cell (`td.opt`):
/// `cells` holds, for each such cell, the `alt` attributes of its images, in
/// order. The first image without a valid item name fails the whole.
pub fn scrape_items(cells: &Vec<Vec<Option<String>>>) -> (r: Result<Vec<PopotamoUserItem>, ScraperError>)
    ensures
        items_ok(cells@) ==> (r matches Ok(items) && items_match(cells@, items@)),
        !items_ok(cells@) ==> (r matches Err(e) && items_error(cells@, e)),
{
    if cells.len() != 1 {
        return Err(ScraperError::MissingProfileUserItems);
    }
    let alts = &cells[0];
    let mut items: Vec<PopotamoUserItem> = Vec::new();
    let mut i: usize = 0;
    while i < alts.len()
        invariant
            i <= alts.len(),
            cells@.len() == 1,
            alts@ == cells@[0]@,
            items@.len() == i,
            forall|j: int| 0 <= j < i ==> item_alt_ok(#[trigger] alts@[j]),
            forall|j: int|
                0 <= j < i ==> (alts@[j] matches Some(a) && (#[trigger] items@[j])@ == a@),
        decreases alts.len() - i,
    {
        let alt = match &alts[i] {
            Some(a) => a,
            None => {
                assert(!item_alt_ok(alts@[i as int]));
                return Err(ScraperError::MissingProfileUserItem);
            },
        };
        let item = match PopotamoUserItem::try_from_string(alt.clone()) {
            Ok(item) => item,
            Err(_) => {
                assert(!item_alt_ok(alts@[i as int]));
                return Err(ScraperError::InvalidItemName(alt.clone()));
            },
        };
        items.push(item);
        i = i + 1;
    }
    Ok(items)
}

/// Whether the items of each sub-profile can be read.
pub open spec fn sub_profiles_succeed(blocks: Seq<Vec<Vec<Option<String>>>>) -> bool {
    forall|i: int| 0 <= i < blocks.len() ==> items_ok(#[trigger] blocks[i]@)
}

/// Whether `r` is what reading the items of each sub-profile gives.
pub open spec fn sub_profiles_result(
    blocks: Seq<Vec<Vec<Option<String>>>>,
    r: Result<Vec<Vec<PopotamoUserItem>>, ScraperError>,
) -> bool {
    if sub_profiles_succeed(blocks) {
        r matches Ok(all) && all@.len() == blocks.len() && forall|i: int|
            0 <= i < blocks.len() ==> items_match(#[trigger] blocks[i]@, all@[i]@)
    } else {
        exists|k: int|
            0 <= k < blocks.len() && !items_ok(#[trigger] blocks[k]@) && (forall|j: int|
                0 <= j < k ==> items_ok(#[trigger] blocks[j]@)) && (r matches Err(e) && items_error(
                blocks[k]@,
                e,
            ))
    }
}

/// The items of each sub-profile of a page (`div[id^='profile_']`), in order:
/// `blocks` holds the item cells of each. The first sub-profile whose items
/// cannot be read fails the whole.
pub fn scrape_sub_profiles(blocks: &Vec<Vec<Vec<Option<String>>>>) -> (r: Result<
    Vec<Vec<PopotamoUserItem>>,
    ScraperError,
>)
    ensures
        sub_profiles_result(blocks@, r),
{
    let mut all: Vec<Vec<PopotamoUserItem>> = Vec::new();
    let mut i: usize = 0;
    while i < blocks.len()
        invariant
            i <= blocks.len(),
            all@.len() == i,
            forall|j: int| 0 <= j < i ==> items_ok(#[trigger] blocks@[j]@),
            forall|j: int| 0 <= j < i ==> items_match(#[trigger] blocks@[j]@, all@[j]@),
        decreases blocks.len() - i,
    {
        match scrape_items(&blocks[i]) {
            Ok(items) => {
                all.push(items);
            },
            Err(e) => {
                assert(!items_ok(blocks@[i as int]@));
                return Err(e);
            },
        }
        i = i + 1;
    }
    Ok(all)
}

/// A profile, as far as the scraper reads it: the user logged in, the user
/// whose profile it is, and the items of each of its sub-profiles.
pub struct ScrapedProfile {
    pub session_user: Option<PopotamoSessionUser>,
    pub user: ShortPopotamoUser,
    pub sub_profile_items: Vec<Vec<PopotamoUserItem>>,
}

/// Reads a profile page: first what every page tells, then the id and the name
/// of the user whose profile it is, then the items of each sub-profile; the
/// first failure fails the whole.
pub fn scrape_profile(page: &PopotamoPage, root: &str) -> (r: Result<ScrapedProfile, ScraperError>)
    ensures
        r is Ok <==> context_succeeds(*page, root@) && id_succeeds(*page, root@) && username_succeeds(
            *page,
        ) && sub_profiles_succeed(page.sub_profiles@),
        r matches Ok(p) ==> {
            &&& p.user.server == PopotamoServer::PopotamoCom
            &&& context_result(
                *page,
                root@,
                Ok(ScraperContext { server: PopotamoServer::PopotamoCom, session: p.session_user }),
            )
            &&& id_result(*page, root@, Ok(p.user.id))
            &&& username_result(*page, Ok(p.user.username))
            &&& sub_profiles_result(page.sub_profiles@, Ok(p.sub_profile_items))
        },
        r matches Err(e) ==> if !context_succeeds(*page, root@) {
            context_result(*page, root@, Err(e))
        } else if !id_succeeds(*page, root@) {
            id_result(*page, root@, Err(e))
        } else if !username_succeeds(*page) {
            username_result(*page, Err(e))
        } else {
            sub_profiles_result(page.sub_profiles@, Err(e))
        },
{
    let context = match scrape_context(page, root) {
        Ok(c) => c,
        Err(e) => {
            return Err(e);
        },
    };
    let id = match scrape_id(page, root) {
        Ok(id) => id,
        Err(e) => {
            return Err(e);
        },
    };
    let username = match scrape_username(page) {
        Ok(u) => u,
        Err(e) => {
            return Err(e);
        },
    };
    let sub_profile_items = match scrape_sub_profiles(&page.sub_profiles) {
        Ok(all) => all,
        Err(e) => {
            return Err(e);
        },
    };
    Ok(
        ScrapedProfile {
            session_user: context.session,
            user: ShortPopotamoUser { server: context.server, id, username },
            sub_profile_items,
        },
    )
}


/// The name in a profile heading is read from its sixth text node alone: two
/// headings whose sixth text nodes are equal give the same name, a heading with
/// fewer text nodes gives none, and a name is found only when that node holds a
/// space; the name holds no line break.
pub proof fn law_heading_username_sixth_node(texts: Seq<Seq<char>>, other: Seq<Seq<char>>)
    ensures
        texts.len() <= 5 ==> heading_username(texts) is None,
        texts.len() > 5 && other.len() > 5 && texts[5] == other[5] ==> heading_username(texts)
            == heading_username(other),
        heading_username(texts) matches Some(name) ==> count_char(texts[5], ' ') >= 1 && !name.contains(
            '\n',
        ),
{
    if texts.len() > 5 {
        law_split_pieces(texts[5], ' ');
        if let Some(word) = nth_piece(texts[5], ' ', 1) {
            law_split_pieces(word, '\n');
        }
    }
}

} // verus!
