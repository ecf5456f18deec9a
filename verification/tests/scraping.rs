use etwin::dinoparc_client::{
    check_ad_tracking_response, check_login_confirmation, login_session_cookie, session_cookie_header,
    LoginFlowError,
};
use etwin::popotamo::PopotamoUserId;
use etwin::popotamo_page::read_page;
use etwin::popotamo_scraper::{
    scrape_context, scrape_id, scrape_items, scrape_profile, scrape_sub_profiles, scrape_username, HtmlLink,
    PopotamoPage, ScraperError,
};
use etwin::text::{parse_decimal_u32, split_nth, split_pieces};

const ROOT: &str = "http://www.popotamo.com/";

fn s(x: &str) -> String {
    x.to_string()
}

fn heading(name_line: &str) -> Vec<String> {
    vec![s("a"), s("b"), s("c"), s("d"), s("e"), s(name_line)]
}

fn logged_in_page() -> PopotamoPage {
    PopotamoPage {
        session_boxes: vec![vec![vec![HtmlLink { href: Some(s("/user/1234")), texts: vec![s("alice")] }]]],
        position_links: vec![Some(s("/profile.html?uid=42"))],
        profile_headings: vec![heading(" bob\n  ")],
        sub_profiles: vec![
            vec![vec![Some(s("poubelle")), Some(s("ventouse"))]],
            vec![vec![]],
        ],
    }
}

#[test]
fn test_parse_decimal_u32() {
    for text in ["0", "7", "+7", "007", "4294967295", "4294967296", "", "+", "-1", "12a", " 1", "99999999999"] {
        assert_eq!(parse_decimal_u32(text), text.parse::<u32>().ok(), "{:?}", text);
    }
    assert_eq!(parse_decimal_u32("+123"), Some(123));
}

#[test]
fn test_split() {
    for (text, sep) in [("a b  c", ' '), ("", ' '), ("x=1=2", '='), ("no separator", '='), ("line\nnext\n", '\n')] {
        let expected: Vec<String> = text.split(sep).map(|p| p.to_string()).collect();
        assert_eq!(split_pieces(text, sep), expected);
        for n in 0..5 {
            assert_eq!(split_nth(text, sep, n), text.split(sep).nth(n).map(|p| p.to_string()));
        }
    }
}

#[test]
fn test_popotamo_user_id_from_decimal() {
    assert_eq!(PopotamoUserId::from_decimal("42").unwrap().get(), 42);
    assert_eq!(PopotamoUserId::from_decimal("999999999").unwrap().get(), 999_999_999);
    assert!(PopotamoUserId::from_decimal("1000000000").is_err());
    assert!(PopotamoUserId::from_decimal("x").is_err());
}

#[test]
fn test_scrape_context() {
    let page = logged_in_page();
    let context = scrape_context(&page, ROOT).unwrap();
    let user = context.session.unwrap().user;
    assert_eq!(user.id.get(), 1234);
    assert_eq!(user.username.as_str(), "alice");

    let mut anonymous = logged_in_page();
    anonymous.session_boxes = vec![];
    assert!(scrape_context(&anonymous, ROOT).unwrap().session.is_none());

    let mut twice = logged_in_page();
    twice.session_boxes.push(vec![]);
    assert_eq!(scrape_context(&twice, ROOT).err(), Some(ScraperError::DuplicateSessionBox));

    let mut no_rewards = logged_in_page();
    no_rewards.session_boxes = vec![vec![]];
    assert_eq!(scrape_context(&no_rewards, ROOT).err(), Some(ScraperError::NonUniqueSessionUserRewards));

    let mut no_link = logged_in_page();
    no_link.session_boxes = vec![vec![vec![]]];
    assert_eq!(scrape_context(&no_link, ROOT).err(), Some(ScraperError::MissingSessionUserLink));

    let mut no_href = logged_in_page();
    no_href.session_boxes[0][0][0].href = None;
    assert_eq!(scrape_context(&no_href, ROOT).err(), Some(ScraperError::MissingLinkHref));

    let mut short_path = logged_in_page();
    short_path.session_boxes[0][0][0].href = Some(s("/user"));
    assert_eq!(scrape_context(&short_path, ROOT).err(), Some(ScraperError::InvalidUserLink(s("/user"))));

    let mut bad_id = logged_in_page();
    bad_id.session_boxes[0][0][0].href = Some(s("/user/abc"));
    assert_eq!(scrape_context(&bad_id, ROOT).err(), Some(ScraperError::InvalidUserId(s("abc"))));

    let mut two_texts = logged_in_page();
    two_texts.session_boxes[0][0][0].texts.push(s("x"));
    assert_eq!(scrape_context(&two_texts, ROOT).err(), Some(ScraperError::NonUniqueSessionUserLinkText));

    let mut bad_name = logged_in_page();
    bad_name.session_boxes[0][0][0].texts = vec![s("not a name")];
    assert_eq!(scrape_context(&bad_name, ROOT).err(), Some(ScraperError::InvalidUsername(s("not a name"))));
}

#[test]
fn test_scrape_id() {
    let page = logged_in_page();
    assert_eq!(scrape_id(&page, ROOT).unwrap().get(), 42);

    let mut relative = logged_in_page();
    relative.position_links = vec![Some(s("../profile.html?uid=7"))];
    assert_eq!(scrape_id(&relative, ROOT).unwrap().get(), 7);

    let mut two_params = logged_in_page();
    two_params.position_links = vec![Some(s("/profile.html?uid=7&x=1"))];
    assert_eq!(scrape_id(&two_params, ROOT).err(), Some(ScraperError::InvalidUserId(s("7&x"))));

    let mut none = logged_in_page();
    none.position_links = vec![];
    assert_eq!(scrape_id(&none, ROOT).err(), Some(ScraperError::MissingProfileUserIdLink));

    let mut no_href = logged_in_page();
    no_href.position_links = vec![None];
    assert_eq!(scrape_id(&no_href, ROOT).err(), Some(ScraperError::MissingLinkHref));

    let mut no_equal = logged_in_page();
    no_equal.position_links = vec![Some(s("/profile.html"))];
    assert_eq!(scrape_id(&no_equal, ROOT).err(), Some(ScraperError::InvalidUserLink(s("/profile.html"))));

    let mut bad_root = logged_in_page();
    bad_root.position_links = vec![Some(s("/p?uid=1"))];
    assert_eq!(scrape_id(&bad_root, "not a url").err(), Some(ScraperError::InvalidUserLink(s("/p?uid=1"))));

    let mut bad_id = logged_in_page();
    bad_id.position_links = vec![Some(s("/p?uid=x"))];
    assert_eq!(scrape_id(&bad_id, ROOT).err(), Some(ScraperError::InvalidUserId(s("x"))));
}

#[test]
fn test_scrape_username() {
    let page = logged_in_page();
    assert_eq!(scrape_username(&page).unwrap().as_str(), "bob");

    let mut two = logged_in_page();
    two.profile_headings.push(vec![]);
    assert_eq!(scrape_username(&two).err(), Some(ScraperError::MissingH2Selector));

    let mut short = logged_in_page();
    short.profile_headings = vec![vec![s("a")]];
    assert_eq!(scrape_username(&short).err(), Some(ScraperError::MissingProfileUsername));

    let mut one_word = logged_in_page();
    one_word.profile_headings = vec![heading("bob")];
    assert_eq!(scrape_username(&one_word).err(), Some(ScraperError::MissingProfileUsername));

    let mut invalid = logged_in_page();
    invalid.profile_headings = vec![heading(" b@b")];
    assert_eq!(scrape_username(&invalid).err(), Some(ScraperError::InvalidUsername(s("b@b"))));
}

#[test]
fn test_scrape_items() {
    let items = scrape_items(&vec![vec![Some(s("poubelle")), Some(s("épée"))]]).unwrap();
    let names: Vec<&str> = items.iter().map(|i| i.as_str()).collect();
    assert_eq!(names, vec!["poubelle", "épée"]);
    assert_eq!(scrape_items(&vec![]).err(), Some(ScraperError::MissingProfileUserItems));
    assert_eq!(scrape_items(&vec![vec![], vec![]]).err(), Some(ScraperError::MissingProfileUserItems));
    assert_eq!(
        scrape_items(&vec![vec![Some(s("ok")), None, Some(s("bad item"))]]).err(),
        Some(ScraperError::MissingProfileUserItem)
    );
    assert_eq!(
        scrape_items(&vec![vec![Some(s("ok")), Some(s("bad item")), None]]).err(),
        Some(ScraperError::InvalidItemName(s("bad item")))
    );
    let all = scrape_sub_profiles(&vec![vec![vec![Some(s("a"))]], vec![vec![]]]).unwrap();
    assert_eq!(all.len(), 2);
    assert_eq!(all[0][0].as_str(), "a");
    assert!(all[1].is_empty());
    assert_eq!(
        scrape_sub_profiles(&vec![vec![vec![]], vec![], vec![vec![None]]]).err(),
        Some(ScraperError::MissingProfileUserItems)
    );
}

#[test]
fn test_scrape_profile() {
    let profile = scrape_profile(&logged_in_page(), ROOT).unwrap();
    assert_eq!(profile.session_user.unwrap().user.username.as_str(), "alice");
    assert_eq!(profile.user.id.get(), 42);
    assert_eq!(profile.user.username.as_str(), "bob");
    assert_eq!(profile.sub_profile_items.len(), 2);
    assert_eq!(profile.sub_profile_items[0][1].as_str(), "ventouse");

    let mut broken = logged_in_page();
    broken.position_links = vec![];
    broken.profile_headings = vec![];
    assert_eq!(scrape_profile(&broken, ROOT).err(), Some(ScraperError::MissingProfileUserIdLink));
}

#[test]
fn test_dinoparc_login_responses() {
    let cookies = vec![(s("lang"), s("fr")), (s("sid"), s("abc")), (s("sid"), s("def"))];
    assert_eq!(login_session_cookie(200, &cookies), Ok(s("abc")));
    assert_eq!(login_session_cookie(302, &cookies), Err(LoginFlowError::UnexpectedLoginResponse));
    assert_eq!(login_session_cookie(200, &vec![(s("lang"), s("fr"))]), Err(LoginFlowError::MissingSessionCookie));
    assert_eq!(check_ad_tracking_response(200, "OK"), Ok(()));
    assert_eq!(check_ad_tracking_response(200, "KO"), Err(LoginFlowError::UnexpectedAdTrackingResponse));
    assert_eq!(check_ad_tracking_response(500, "OK"), Err(LoginFlowError::UnexpectedAdTrackingResponse));
    assert_eq!(check_login_confirmation(200), Ok(()));
    assert_eq!(check_login_confirmation(404), Err(LoginFlowError::UnexpectedLoginConfirmationResponse));
    assert_eq!(session_cookie_header("xyz"), "sid=xyz");
}

const PAGE: &str = r#"<html><body>
<div id="menu"><table id="sheet"><tr><td><div class="rewards"><a href="/user/1234">alice</a><a href="/other">x</a></div></td></tr></table></div>
<a class="position" href="/profile.html?uid=42">position</a>
<h2 class="mainsheet"><b>a</b><b>b</b><b>c</b><b>d</b><b>e</b> bob
</h2>
<div id="profile_1"><table><tr><td class="opt"><img alt="poubelle"><img alt="ventouse"></td></tr></table></div>
<div id="profile_2"><table><tr><td class="opt"></td><td class="other"><img alt="x"></td></tr></table></div>
</body></html>"#;

#[test]
fn test_read_page() {
    let page = read_page(PAGE).unwrap();
    assert_eq!(page.session_boxes.len(), 1);
    assert_eq!(page.session_boxes[0].len(), 1);
    let links = &page.session_boxes[0][0];
    assert_eq!(links.len(), 2);
    assert_eq!(links[0].href.as_deref(), Some("/user/1234"));
    assert_eq!(links[0].texts, vec![s("alice")]);
    assert_eq!(page.position_links, vec![Some(s("/profile.html?uid=42"))]);
    assert_eq!(page.profile_headings.len(), 1);
    assert_eq!(page.profile_headings[0][5], " bob\n");
    assert_eq!(
        page.sub_profiles,
        vec![vec![vec![Some(s("poubelle")), Some(s("ventouse"))]], vec![vec![]]]
    );
    let profile = scrape_profile(&page, ROOT).unwrap();
    assert_eq!(profile.session_user.unwrap().user.id.get(), 1234);
    assert_eq!(profile.user.id.get(), 42);
    assert_eq!(profile.user.username.as_str(), "bob");
    assert_eq!(profile.sub_profile_items[0].len(), 2);
}

#[test]
fn test_read_page_without_session() {
    let page = read_page("<html><body><p>nothing</p></body></html>").unwrap();
    assert!(page.session_boxes.is_empty());
    assert!(page.position_links.is_empty());
    assert!(page.profile_headings.is_empty());
    assert!(page.sub_profiles.is_empty());
}
