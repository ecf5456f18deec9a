use crate::job::{clone_opt_string, opt_view};
use crate::popotamo_scraper::{HtmlLink, PopotamoPage};
use vstd::prelude::*;

verus! {

/// Whether `selector` is a CSS selector that the page reader accepts.
pub uninterp spec fn css_selector_valid(selector: Seq<char>) -> bool;

/// The outer HTML of each element that `selector` matches in the document
/// parsed from `html`.
pub uninterp spec fn html_select(html: Seq<char>, selector: Seq<char>) -> Seq<Seq<char>>;

/// The attribute `attr` of each element that `selector` matches in the
/// document parsed from `html`, where it has one.
pub uninterp spec fn html_attr(html: Seq<char>, selector: Seq<char>, attr: Seq<char>) -> Seq<Option<Seq<char>>>;

/// The text nodes under each element that `selector` matches in the document
/// parsed from `html`.
pub uninterp spec fn html_texts(html: Seq<char>, selector: Seq<char>) -> Seq<Seq<Seq<char>>>;

/// Parses `html` with `scraper::Html::parse_document` and lists the outer HTML
/// (`scraper::ElementRef::html`) of the elements that `selector` (parsed with
/// `scraper::Selector::parse`) matches, in the order `scraper::Html::select`
/// gives them; `None` when the selector does not parse. The result is taken to
/// depend on the two strings alone; nothing more is claimed of it.
#[verifier::external_body]
fn select_html(html: &str, selector: &str) -> (r: Option<Vec<String>>)
    ensures
        match r {
            Some(v) => css_selector_valid(selector@) && v@.map_values(|s: String| s@) == html_select(
                html@,
                selector@,
            ),
            None => !css_selector_valid(selector@),
        },
{
    match scraper::Selector::parse(selector) {
        Ok(sel) => Some(scraper::Html::parse_document(html).select(&sel).map(|e| e.html()).collect()),
        Err(_) => None,
    }
}

/// As [`select_html`], but lists the attribute `attr` of each match
/// (`scraper::ElementRef::attr`): there is one entry per match.
#[verifier::external_body]
fn select_attr(html: &str, selector: &str, attr: &str) -> (r: Option<Vec<Option<String>>>)
    ensures
        match r {
            Some(v) => {
                &&& css_selector_valid(selector@)
                &&& v@.map_values(|a: Option<String>| opt_view(a)) == html_attr(html@, selector@, attr@)
                &&& v@.len() == html_select(html@, selector@).len()
            },
            None => !css_selector_valid(selector@),
        },
{
    match scraper::Selector::parse(selector) {
        Ok(sel) => Some(
            scraper::Html::parse_document(html).select(&sel).map(|e| e.attr(attr).map(|a| a.to_owned())).collect(),
        ),
        Err(_) => None,
    }
}

/// As [`select_html`], but lists the text nodes under each match
/// (`scraper::ElementRef::text`): there is one entry per match.
#[verifier::external_body]
fn select_texts(html: &str, selector: &str) -> (r: Option<Vec<Vec<String>>>)
    ensures
        match r {
            Some(v) => {
                &&& css_selector_valid(selector@)
                &&& v@.map_values(|t: Vec<String>| t@.map_values(|s: String| s@)) == html_texts(
                    html@,
                    selector@,
                )
                &&& v@.len() == html_select(html@, selector@).len()
            },
            None => !css_selector_valid(selector@),
        },
{
    match scraper::Selector::parse(selector) {
        Ok(sel) => Some(
            scraper::Html::parse_document(html)
                .select(&sel)
                .map(|e| e.text().map(|t| t.to_owned()).collect())
                .collect(),
        ),
        Err(_) => None,
    }
}

/// The session boxes of a page.
pub const SESSION_BOX: &'static str = "#menu table#sheet";

/// The reward blocks of a session box.
pub const REWARDS: &'static str = "div.rewards";

/// The links of a reward block.
pub const LINK: &'static str = "a";

/// The links to the position of the user whose profile a page shows.
pub const POSITION_LINK: &'static str = "a.position";

/// The profile headings of a page.
pub const PROFILE_HEADING: &'static str = "h2.mainsheet";

/// The sub-profiles of a page.
pub const SUB_PROFILE: &'static str = "div[id^='profile_']";

/// The item cells of a sub-profile.
pub const ITEM_CELL: &'static str = "td.opt";

/// The images of an item cell.
pub const ITEM_IMAGE: &'static str = "img";

/// The attribute of a link that holds its target.
pub const HREF: &'static str = "href";

/// The attribute of an image that holds its text.
pub const ALT: &'static str = "alt";

/// Every selector that the page reader applies parses.
pub open spec fn page_selectors_valid() -> bool {
    &&& css_selector_valid(SESSION_BOX@)
    &&& css_selector_valid(REWARDS@)
    &&& css_selector_valid(LINK@)
    &&& css_selector_valid(POSITION_LINK@)
    &&& css_selector_valid(PROFILE_HEADING@)
    &&& css_selector_valid(SUB_PROFILE@)
    &&& css_selector_valid(ITEM_CELL@)
    &&& css_selector_valid(ITEM_IMAGE@)
}

/// The characters of each string of `v`.
pub open spec fn strings_view(v: Vec<String>) -> Seq<Seq<char>> {
    v@.map_values(|s: String| s@)
}

/// The `href` and the text nodes of a link.
pub open spec fn link_view(l: HtmlLink) -> (Option<Seq<char>>, Seq<Seq<char>>) {
    (opt_view(l.href), strings_view(l.texts))
}

/// The `href` and the text nodes of each link of the reward block `rewards`.
pub open spec fn links_of(rewards: Seq<char>) -> Seq<(Option<Seq<char>>, Seq<Seq<char>>)> {
    Seq::new(
        html_select(rewards, LINK@).len(),
        |k: int| (html_attr(rewards, LINK@, HREF@)[k], html_texts(rewards, LINK@)[k]),
    )
}

/// The links of each reward block of the session box `session_box`.
pub open spec fn rewards_of(session_box: Seq<char>) -> Seq<Seq<(Option<Seq<char>>, Seq<Seq<char>>)>> {
    html_select(session_box, REWARDS@).map_values(|r: Seq<char>| links_of(r))
}

/// The reward blocks of each session box of the page `html`.
pub open spec fn session_boxes_of(html: Seq<char>) -> Seq<Seq<Seq<(Option<Seq<char>>, Seq<Seq<char>>)>>> {
    html_select(html, SESSION_BOX@).map_values(|b: Seq<char>| rewards_of(b))
}

/// The `alt` attributes of the images of each item cell of `sub_profile`.
pub open spec fn cells_of(sub_profile: Seq<char>) -> Seq<Seq<Option<Seq<char>>>> {
    html_select(sub_profile, ITEM_CELL@).map_values(|c: Seq<char>| html_attr(c, ITEM_IMAGE@, ALT@))
}

/// The item cells of each sub-profile of the page `html`.
pub open spec fn sub_profiles_of(html: Seq<char>) -> Seq<Seq<Seq<Option<Seq<char>>>>> {
    html_select(html, SUB_PROFILE@).map_values(|d: Seq<char>| cells_of(d))
}

/// What `page` holds, as plain sequences.
pub open spec fn boxes_view(v: Vec<Vec<Vec<HtmlLink>>>) -> Seq<Seq<Seq<(Option<Seq<char>>, Seq<Seq<char>>)>>> {
    v@.map_values(
        |b: Vec<Vec<HtmlLink>>|
            b@.map_values(|r: Vec<HtmlLink>| r@.map_values(|l: HtmlLink| link_view(l))),
    )
}

/// The `alt` attributes of item images, as plain sequences.
pub open spec fn alts_view(v: Vec<Option<String>>) -> Seq<Option<Seq<char>>> {
    v@.map_values(|a: Option<String>| opt_view(a))
}

/// The sub-profiles of a page, as plain sequences.
pub open spec fn blocks_view(v: Vec<Vec<Vec<Option<String>>>>) -> Seq<Seq<Seq<Option<Seq<char>>>>> {
    v@.map_values(|d: Vec<Vec<Option<String>>>| d@.map_values(|c: Vec<Option<String>>| alts_view(c)))
}

/// The headings of a page, as plain sequences.
pub open spec fn headings_view(v: Vec<Vec<String>>) -> Seq<Seq<Seq<char>>> {
    v@.map_values(|t: Vec<String>| strings_view(t))
}

fn clone_strings(v: &Vec<String>) -> (r: Vec<String>)
    ensures
        strings_view(r) == strings_view(*v),
{
    let mut r: Vec<String> = Vec::new();
    let mut i: usize = 0;
    while i < v.len()
        invariant
            i <= v.len(),
            r@.len() == i,
            forall|j: int| 0 <= j < i ==> (#[trigger] r@[j])@ == v@[j]@,
        decreases v.len() - i,
    {
        r.push(v[i].clone());
        i = i + 1;
    }
    assert(strings_view(r) =~= strings_view(*v));
    r
}

fn read_links(rewards: &str) -> (r: Option<Vec<HtmlLink>>)
    ensures
        r matches Some(v) ==> v@.map_values(|l: HtmlLink| link_view(l)) == links_of(rewards@),
        r is None ==> !page_selectors_valid(),
{
    let hrefs = match select_attr(rewards, LINK, HREF) {
        Some(v) => v,
        None => {
            return None;
        },
    };
    let texts = match select_texts(rewards, LINK) {
        Some(v) => v,
        None => {
            return None;
        },
    };
    let ghost target = links_of(rewards@);
    let mut links: Vec<HtmlLink> = Vec::new();
    let mut i: usize = 0;
    while i < hrefs.len()
        invariant
            i <= hrefs.len(),
            hrefs@.len() == target.len(),
            texts@.len() == target.len(),
            target == links_of(rewards@),
            hrefs@.map_values(|a: Option<String>| opt_view(a)) == html_attr(rewards@, LINK@, HREF@),
            texts@.map_values(|t: Vec<String>| t@.map_values(|s: String| s@)) == html_texts(
                rewards@,
                LINK@,
            ),
            links@.len() == i,
            forall|j: int| 0 <= j < i ==> link_view(#[trigger] links@[j]) == target[j],
        decreases hrefs.len() - i,
    {
        let href = clone_opt_string(&hrefs[i]);
        let t = clone_strings(&texts[i]);
        proof {
            assert(hrefs@.map_values(|a: Option<String>| opt_view(a))[i as int] == opt_view(hrefs@[i as int]));
            assert(texts@.map_values(|t: Vec<String>| t@.map_values(|s: String| s@))[i as int] == strings_view(
                texts@[i as int],
            ));
        }
        links.push(HtmlLink { href, texts: t });
        i = i + 1;
    }
    assert(links@.map_values(|l: HtmlLink| link_view(l)) =~= target);
    Some(links)
}

fn read_rewards(session_box: &str) -> (r: Option<Vec<Vec<HtmlLink>>>)
    ensures
        r matches Some(v) ==> v@.map_values(
            |b: Vec<HtmlLink>| b@.map_values(|l: HtmlLink| link_view(l)),
        ) == rewards_of(session_box@),
        r is None ==> !page_selectors_valid(),
{
    let blocks = match select_html(session_box, REWARDS) {
        Some(v) => v,
        None => {
            return None;
        },
    };
    let ghost outs = html_select(session_box@, REWARDS@);
    let mut all: Vec<Vec<HtmlLink>> = Vec::new();
    let mut i: usize = 0;
    while i < blocks.len()
        invariant
            i <= blocks.len(),
            blocks@.map_values(|s: String| s@) == outs,
            outs == html_select(session_box@, REWARDS@),
            all@.len() == i,
            forall|j: int|
                0 <= j < i ==> (#[trigger] all@[j])@.map_values(|l: HtmlLink| link_view(l)) == links_of(
                    outs[j],
                ),
        decreases blocks.len() - i,
    {
        assert(blocks@.map_values(|s: String| s@)[i as int] == blocks@[i as int]@);
        let links = match read_links(blocks[i].as_str()) {
            Some(l) => l,
            None => {
                return None;
            },
        };
        all.push(links);
        i = i + 1;
    }
    assert(all@.map_values(|b: Vec<HtmlLink>| b@.map_values(|l: HtmlLink| link_view(l))) =~= rewards_of(
        session_box@,
    ));
    Some(all)
}

fn read_cells(sub_profile: &str) -> (r: Option<Vec<Vec<Option<String>>>>)
    ensures
        r matches Some(v) ==> v@.map_values(|c: Vec<Option<String>>| alts_view(c)) == cells_of(
            sub_profile@,
        ),
        r is None ==> !page_selectors_valid(),
{
    let cells = match select_html(sub_profile, ITEM_CELL) {
        Some(v) => v,
        None => {
            return None;
        },
    };
    let ghost outs = html_select(sub_profile@, ITEM_CELL@);
    let mut all: Vec<Vec<Option<String>>> = Vec::new();
    let mut i: usize = 0;
    while i < cells.len()
        invariant
            i <= cells.len(),
            cells@.map_values(|s: String| s@) == outs,
            outs == html_select(sub_profile@, ITEM_CELL@),
            all@.len() == i,
            forall|j: int|
                0 <= j < i ==> alts_view(#[trigger] all@[j]) == html_attr(outs[j], ITEM_IMAGE@, ALT@),
        decreases cells.len() - i,
    {
        assert(cells@.map_values(|s: String| s@)[i as int] == cells@[i as int]@);
        let alts = match select_attr(cells[i].as_str(), ITEM_IMAGE, ALT) {
            Some(a) => a,
            None => {
                return None;
            },
        };
        all.push(alts);
        i = i + 1;
    }
    assert(all@.map_values(|c: Vec<Option<String>>| alts_view(c)) =~= cells_of(sub_profile@));
    Some(all)
}

/// Reads from the HTML text of a Popotamo page what its scraper needs: the
/// session boxes with their reward blocks and links, the position links, the
/// profile headings, and the item cells of each sub-profile. `None` only when
/// one of the selectors that it applies does not parse.
pub fn read_page(html: &str) -> (r: Option<PopotamoPage>)
    ensures
        r is None ==> !page_selectors_valid(),
        r matches Some(p) ==> {
            &&& boxes_view(p.session_boxes) == session_boxes_of(html@)
            &&& alts_view(p.position_links) == html_attr(html@, POSITION_LINK@, HREF@)
            &&& headings_view(p.profile_headings) == html_texts(html@, PROFILE_HEADING@)
            &&& blocks_view(p.sub_profiles) == sub_profiles_of(html@)
            &&& p.session_boxes@.len() == html_select(html@, SESSION_BOX@).len()
            &&& forall|i: int|
                0 <= i < p.session_boxes@.len() ==> (#[trigger] p.session_boxes@[i])@.len()
                    == html_select(html_select(html@, SESSION_BOX@)[i], REWARDS@).len()
            &&& forall|i: int, k: int|
                0 <= i < p.session_boxes@.len() && 0 <= k < p.session_boxes@[i]@.len() ==> {
                    let block = html_select(html_select(html@, SESSION_BOX@)[i], REWARDS@)[k];
                    let links = (#[trigger] p.session_boxes@[i]@[k])@;
                    &&& links.len() == html_select(block, LINK@).len()
                    &&& forall|j: int|
                        0 <= j < links.len() ==> opt_view((#[trigger] links[j]).href) == html_attr(
                            block,
                            LINK@,
                            HREF@,
                        )[j] && strings_view(links[j].texts) == html_texts(block, LINK@)[j]
                }
            &&& p.sub_profiles@.len() == html_select(html@, SUB_PROFILE@).len()
            &&& forall|i: int|
                0 <= i < p.sub_profiles@.len() ==> (#[trigger] p.sub_profiles@[i])@.len()
                    == html_select(html_select(html@, SUB_PROFILE@)[i], ITEM_CELL@).len()
            &&& forall|i: int, c: int|
                0 <= i < p.sub_profiles@.len() && 0 <= c < p.sub_profiles@[i]@.len() ==> alts_view(
                    #[trigger] p.sub_profiles@[i]@[c],
                ) == html_attr(
                    html_select(html_select(html@, SUB_PROFILE@)[i], ITEM_CELL@)[c],
                    ITEM_IMAGE@,
                    ALT@,
                )
        },
{
    let boxes = match select_html(html, SESSION_BOX) {
        Some(v) => v,
        None => {
            return None;
        },
    };
    let ghost box_outs = html_select(html@, SESSION_BOX@);
    let mut session_boxes: Vec<Vec<Vec<HtmlLink>>> = Vec::new();
    let mut i: usize = 0;
    while i < boxes.len()
        invariant
            i <= boxes.len(),
            boxes@.map_values(|s: String| s@) == box_outs,
            box_outs == html_select(html@, SESSION_BOX@),
            session_boxes@.len() == i,
            forall|j: int|
                0 <= j < i ==> (#[trigger] session_boxes@[j])@.map_values(
                    |b: Vec<HtmlLink>| b@.map_values(|l: HtmlLink| link_view(l)),
                ) == rewards_of(box_outs[j]),
        decreases boxes.len() - i,
    {
        assert(boxes@.map_values(|s: String| s@)[i as int] == boxes@[i as int]@);
        let rewards = match read_rewards(boxes[i].as_str()) {
            Some(r) => r,
            None => {
                return None;
            },
        };
        session_boxes.push(rewards);
        i = i + 1;
    }
    assert(boxes_view(session_boxes) =~= session_boxes_of(html@));
    let position_links = match select_attr(html, POSITION_LINK, HREF) {
        Some(v) => v,
        None => {
            return None;
        },
    };
    let profile_headings = match select_texts(html, PROFILE_HEADING) {
        Some(v) => v,
        None => {
            return None;
        },
    };
    assert(headings_view(profile_headings) =~= html_texts(html@, PROFILE_HEADING@));
    let divs = match select_html(html, SUB_PROFILE) {
        Some(v) => v,
        None => {
            return None;
        },
    };
    let ghost div_outs = html_select(html@, SUB_PROFILE@);
    let mut sub_profiles: Vec<Vec<Vec<Option<String>>>> = Vec::new();
    let mut k: usize = 0;
    while k < divs.len()
        invariant
            k <= divs.len(),
            divs@.map_values(|s: String| s@) == div_outs,
            div_outs == html_select(html@, SUB_PROFILE@),
            sub_profiles@.len() == k,
            forall|j: int|
                0 <= j < k ==> (#[trigger] sub_profiles@[j])@.map_values(
                    |c: Vec<Option<String>>| alts_view(c),
                ) == cells_of(div_outs[j]),
        decreases divs.len() - k,
    {
        assert(divs@.map_values(|s: String| s@)[k as int] == divs@[k as int]@);
        let cells = match read_cells(divs[k].as_str()) {
            Some(c) => c,
            None => {
                return None;
            },
        };
        sub_profiles.push(cells);
        k = k + 1;
    }
    assert(blocks_view(sub_profiles) =~= sub_profiles_of(html@));
    proof {
        let bv = boxes_view(session_boxes);
        assert forall|i: int, k: int|
            0 <= i < session_boxes@.len() && 0 <= k < session_boxes@[i]@.len() implies {
                let block = html_select(html_select(html@, SESSION_BOX@)[i], REWARDS@)[k];
                let links = (#[trigger] session_boxes@[i]@[k])@;
                &&& links.len() == html_select(block, LINK@).len()
                &&& forall|j: int|
                    0 <= j < links.len() ==> opt_view((#[trigger] links[j]).href) == html_attr(
                        block,
                        LINK@,
                        HREF@,
                    )[j] && strings_view(links[j].texts) == html_texts(block, LINK@)[j]
            } by {
            let b = html_select(html@, SESSION_BOX@)[i];
            let block = html_select(b, REWARDS@)[k];
            let links = session_boxes@[i]@[k]@;
            assert(bv[i] == rewards_of(b));
            assert(bv[i][k] == links_of(block));
            assert(bv[i][k] == links.map_values(|l: HtmlLink| link_view(l)));
            assert forall|j: int| 0 <= j < links.len() implies opt_view((#[trigger] links[j]).href)
                == html_attr(block, LINK@, HREF@)[j] && strings_view(links[j].texts) == html_texts(
                block,
                LINK@,
            )[j] by {
                assert(bv[i][k][j] == link_view(links[j]));
            }
        }
        assert forall|i: int| 0 <= i < session_boxes@.len() implies (
        #[trigger] session_boxes@[i])@.len() == html_select(
            html_select(html@, SESSION_BOX@)[i],
            REWARDS@,
        ).len() by {
            assert(bv[i] == rewards_of(html_select(html@, SESSION_BOX@)[i]));
        }
    }
    proof {
        let sv = blocks_view(sub_profiles);
        assert forall|i: int, c: int|
            0 <= i < sub_profiles@.len() && 0 <= c < sub_profiles@[i]@.len() implies alts_view(
            #[trigger] sub_profiles@[i]@[c],
        ) == html_attr(
            html_select(html_select(html@, SUB_PROFILE@)[i], ITEM_CELL@)[c],
            ITEM_IMAGE@,
            ALT@,
        ) by {
            let d = html_select(html@, SUB_PROFILE@)[i];
            assert(sv[i] == cells_of(d));
            assert(sv[i][c] == alts_view(sub_profiles@[i]@[c]));
        }
        assert forall|i: int| 0 <= i < sub_profiles@.len() implies (
        #[trigger] sub_profiles@[i])@.len() == html_select(
            html_select(html@, SUB_PROFILE@)[i],
            ITEM_CELL@,
        ).len() by {
            assert(sv[i] == cells_of(html_select(html@, SUB_PROFILE@)[i]));
        }
    }
    Some(PopotamoPage { session_boxes, position_links, profile_headings, sub_profiles })
}

/// The links read for a reward block are those selected inside that block's
/// own HTML, one per link in order, each with its `href` and its text nodes;
/// and a session box has one entry per reward block selected inside it.
pub proof fn law_rewards_read_inside_block(session_box: Seq<char>, k: int, j: int)
    requires
        0 <= k < html_select(session_box, REWARDS@).len(),
    ensures
        rewards_of(session_box).len() == html_select(session_box, REWARDS@).len(),
        ({
            let block = html_select(session_box, REWARDS@)[k];
            &&& rewards_of(session_box)[k].len() == html_select(block, LINK@).len()
            &&& 0 <= j < html_select(block, LINK@).len() ==> rewards_of(session_box)[k][j] == (
                html_attr(block, LINK@, HREF@)[j],
                html_texts(block, LINK@)[j],
            )
        }),
{
}

/// The item images read for a sub-profile are those selected inside each of
/// its own item cells: a sub-profile has one entry per item cell selected
/// inside it, and each entry lists the `alt` attributes of the images selected
/// inside that cell's HTML.
pub proof fn law_cells_read_inside_cell(sub_profile: Seq<char>, c: int)
    requires
        0 <= c < html_select(sub_profile, ITEM_CELL@).len(),
    ensures
        cells_of(sub_profile).len() == html_select(sub_profile, ITEM_CELL@).len(),
        cells_of(sub_profile)[c] == html_attr(html_select(sub_profile, ITEM_CELL@)[c], ITEM_IMAGE@, ALT@),
{
}

} // verus!
