//! The season and week pages: which weeks and games they link to, and what a
//! week page's address says.

use vstd::prelude::*;
use crate::capture::{capture_group, group_of, regex_captures};
use crate::game::page_attrs;
use crate::markup::{build_tree, select_markup, selected_markup, selection_view, texts_view, tree_of, Markup, MarkupV, NodeData, NodeDataV, ATTR_HREF};
use crate::rows::{attr_at, attr_value, text_below};
use crate::text::{decimal, decimal_string, has_prefix, normalize_markup, normalized, parse_u32, same_text, u32_of};

verus! {

/// The site that relative links point into.
pub open spec fn site() -> Seq<char> {
    "https://www.pro-football-reference.com"@
}

/// Pattern of a week page's address: the season in group 1, the week in group 2.
pub open spec fn week_pattern() -> Seq<char> {
    ".*/(\\d{4})/week_(\\d{1,2})\\.htm"@
}

/// The number in group `group` of a week page's address.
pub open spec fn week_part(uri: Seq<char>, group: int) -> Option<u32> {
    match group_of(regex_captures(week_pattern(), uri), group) {
        Some(g) => u32_of(g),
        None => None,
    }
}

fn week_part_of(uri: &str, group: usize) -> (r: Option<u32>)
    ensures
        r == week_part(uri@, group as int),
{
    match capture_group(".*/(\\d{4})/week_(\\d{1,2})\\.htm", uri, group) {
        Some(g) => parse_u32(g.as_str()),
        None => None,
    }
}

/// The season that a week page's address names.
pub fn parse_year(week_uri: &str) -> (r: u32)
    requires
        week_part(week_uri@, 1) is Some,
    ensures
        week_part(week_uri@, 1) == Some(r),
{
    match week_part_of(week_uri, 1) {
        Some(y) => y,
        None => {
            assert(false);
            0
        },
    }
}

/// The week number that a week page's address names.
pub fn parse_week_num(week_uri: &str) -> (r: u32)
    requires
        week_part(week_uri@, 2) is Some,
    ensures
        week_part(week_uri@, 2) == Some(r),
{
    match week_part_of(week_uri, 2) {
        Some(w) => w,
        None => {
            assert(false);
            0
        },
    }
}

/// The season and the week that a week page's address names, when it names both.
pub fn week_coordinate(week_uri: &str) -> (r: Option<(u32, u32)>)
    ensures
        r == (if week_part(week_uri@, 1) is Some && week_part(week_uri@, 2) is Some {
            Some((week_part(week_uri@, 1)->0, week_part(week_uri@, 2)->0))
        } else {
            None
        }),
{
    match (week_part_of(week_uri, 1), week_part_of(week_uri, 2)) {
        (Some(_), Some(_)) => Some((parse_year(week_uri), parse_week_num(week_uri))),
        _ => None,
    }
}

/// The address of a season's page.
pub open spec fn season_address(year: u32) -> Seq<char> {
    site() + "/years/"@ + decimal(year as nat) + "/"@
}

/// The address of a season's page.
pub fn season_url(year: u32) -> (r: String)
    ensures
        r@ == season_address(year),
{
    let a = String::from_str("https://www.pro-football-reference.com").concat("/years/");
    let d = decimal_string(year);
    a.concat(d.as_str()).concat("/")
}

/// A link target made absolute: a path from the site's root gets the site in front.
pub open spec fn absolute(href: Seq<char>) -> Seq<char> {
    if href.len() > 0 && href[0] == '/' {
        site() + href
    } else {
        href
    }
}

/// A link target made absolute.
pub fn parse_a_href(href: &str) -> (r: String)
    ensures
        r@ == absolute(href@),
{
    proof {
        reveal_strlit("/");
    }
    let rooted = has_prefix(href, "/");
    assert(rooted == (href@.len() > 0 && href@[0] == '/')) by {
        assert("/"@.len() == 1 && "/"@[0] == '/');
        if href@.len() > 0 {
            assert(href@.subrange(0, 1) =~= seq![href@[0]]);
            assert("/"@ =~= seq!['/']);
        }
    }
    if rooted {
        String::from_str("https://www.pro-football-reference.com").concat(href)
    } else {
        String::from_str(href)
    }
}

/// The text directly inside a selected element.
pub open spec fn inner_text(m: Seq<MarkupV>) -> Option<Seq<char>> {
    let t = tree_of(m);
    if t.len() == 0 { None } else { text_below(t, 0, 1) }
}

/// The link target of a selected element.
pub open spec fn root_href(m: Seq<MarkupV>) -> Option<Seq<char>> {
    let t = tree_of(m);
    if t.len() == 0 {
        None
    } else {
        match t[0].data {
            NodeDataV::Element { tag, attrs } => attr_at(attrs, ATTR_HREF as int),
            _ => None,
        }
    }
}

/// Whether a link is wanted: on a season page, one whose text starts with
/// `Week`; on a week page, one whose text is `F` (a final score's box score).
pub open spec fn link_wanted(m: Seq<MarkupV>, weeks: bool) -> bool {
    match inner_text(m) {
        Some(t) => if weeks {
            "Week"@.len() <= t.len() && t.subrange(0, "Week"@.len() as int) == "Week"@
        } else {
            t == "F"@
        },
        None => false,
    }
}

/// The absolute targets of the wanted links among selected elements, in
/// order; a wanted link without a target is passed over.
pub open spec fn links_of(sel: Seq<Seq<MarkupV>>, weeks: bool) -> Seq<Seq<char>>
    decreases sel.len(),
{
    if sel.len() == 0 {
        seq![]
    } else {
        let before = links_of(sel.drop_last(), weeks);
        if link_wanted(sel.last(), weeks) && root_href(sel.last()) is Some {
            before.push(absolute(root_href(sel.last())->0))
        } else {
            before
        }
    }
}

fn link_of(m: &Vec<Markup>, weeks: bool) -> (r: Option<String>)
    ensures
        match r {
            Some(s) => link_wanted(crate::markup::markup_view(m@), weeks) && root_href(crate::markup::markup_view(m@)) is Some
                && s@ == absolute(root_href(crate::markup::markup_view(m@))->0),
            None => !(link_wanted(crate::markup::markup_view(m@), weeks) && root_href(crate::markup::markup_view(m@)) is Some),
        },
{
    let t = build_tree(m);
    if t.nodes.len() == 0 {
        return None;
    }
    assert(t@[0] == t.nodes@[0]@);
    let wanted = match crate::rows::text_at_depth(&t, 0, 1) {
        Some(text) => if weeks {
            has_prefix(text.as_str(), "Week")
        } else {
            same_text(text.as_str(), "F")
        },
        None => false,
    };
    if !wanted {
        return None;
    }
    match &t.nodes[0].data {
        NodeData::Element { tag: _, attrs } => match attr_value(attrs, ATTR_HREF) {
            Some(h) => Some(parse_a_href(h.as_str())),
            None => None,
        },
        _ => None,
    }
}

fn collect_links(sel: &Vec<Vec<Markup>>, weeks: bool) -> (r: Vec<String>)
    ensures
        texts_view(r@) == links_of(selection_view(sel@), weeks),
{
    let ghost sv = selection_view(sel@);
    let mut out: Vec<String> = Vec::new();
    let mut i: usize = 0;
    assert(sv.take(0) =~= seq![]);
    assert(texts_view(out@) =~= seq![]);
    while i < sel.len()
        invariant
            sv == selection_view(sel@),
            i <= sel@.len(),
            texts_view(out@) == links_of(sv.take(i as int), weeks),
        decreases sel@.len() - i,
    {
        assert(sv.take(i + 1).drop_last() =~= sv.take(i as int));
        assert(sv.take(i + 1).last() == crate::markup::markup_view(sel@[i as int]@));
        match link_of(&sel[i], weeks) {
            Some(l) => {
                out.push(l);
                assert(texts_view(out@) =~= links_of(sv.take(i + 1), weeks));
            },
            None => {
                assert(texts_view(out@) =~= links_of(sv.take(i + 1), weeks));
            },
        }
        i = i + 1;
    }
    assert(sv.take(sel@.len() as int) =~= sv);
    out
}

fn select_one(page: &str, selector: &str) -> (r: Vec<Vec<Markup>>)
    ensures
        selection_view(r@) == selected_markup(page@, selector@, page_attrs()),
{
    let mut selectors: Vec<String> = Vec::new();
    selectors.push(String::from_str(selector));
    let mut attrs: Vec<String> = Vec::new();
    attrs.push(String::from_str("data-append-csv"));
    attrs.push(String::from_str("data-stat"));
    attrs.push(String::from_str("href"));
    assert(texts_view(attrs@) =~= page_attrs());
    let mut all = select_markup(page, &selectors, &attrs);
    assert(selection_view(all@[0]@) == selected_markup(page@, selectors@[0]@, texts_view(attrs@)));
    all.swap_remove(0)
}

/// The weeks that a season page links to, as absolute addresses, in page order.
pub fn parse_season_page(page: &str) -> (r: Vec<String>)
    ensures
        texts_view(r@) == links_of(selected_markup(normalized(page@), "#div_week_games a"@, page_attrs()), true),
{
    let doc = normalize_markup(page);
    let sel = select_one(doc.as_str(), "#div_week_games a");
    collect_links(&sel, true)
}

/// The box scores of finished games that a week page links to, as absolute
/// addresses, in page order.
pub fn parse_season_week_page(page: &str) -> (r: Vec<String>)
    ensures
        texts_view(r@) == links_of(selected_markup(page@, ".gamelink a"@, page_attrs()), false),
{
    let sel = select_one(page, ".gamelink a");
    collect_links(&sel, false)
}

} // verus!
