use boxscore::pages::{parse_a_href, parse_season_page, parse_season_week_page, parse_week_num, parse_year, season_url, week_coordinate};

#[test]
fn parse_year_test() {
    assert_eq!(2021, parse_year("https://www.pro-football-reference.com/years/2021/week_1.htm"));
    assert_eq!(2021, parse_year("https://www.pro-football-reference.com/years/2021/week_10.htm"));
    assert_eq!(2021, parse_year("https://www.pro-football-reference.com/years/2021/week_17.htm"));

    assert_eq!(2019, parse_year("https://www.pro-football-reference.com/years/2019/week_1.htm"));
    assert_eq!(2019, parse_year("https://www.pro-football-reference.com/years/2019/week_10.htm"));
    assert_eq!(2019, parse_year("https://www.pro-football-reference.com/years/2019/week_17.htm"));
}

#[test]
fn parse_week_num_test() {
    assert_eq!(1, parse_week_num("https://www.pro-football-reference.com/years/2021/week_1.htm"));
    assert_eq!(10, parse_week_num("https://www.pro-football-reference.com/years/2021/week_10.htm"));
    assert_eq!(17, parse_week_num("https://www.pro-football-reference.com/years/2021/week_17.htm"));
}

#[test]
fn week_coordinate_of_week_address() {
    assert_eq!(
        Some((2020, 5)),
        week_coordinate("https://www.pro-football-reference.com/years/2020/week_5.htm")
    );
}

#[test]
fn week_coordinate_of_other_address() {
    assert_eq!(None, week_coordinate("https://www.pro-football-reference.com/years/2020/"));
}

#[test]
fn relative_link_gets_site() {
    assert_eq!(
        "https://www.pro-football-reference.com/boxscores/202109090tam.htm",
        parse_a_href("/boxscores/202109090tam.htm")
    );
}

#[test]
fn absolute_link_kept() {
    assert_eq!("https://example.com/a.htm", parse_a_href("https://example.com/a.htm"));
}

#[test]
fn season_address() {
    assert_eq!("https://www.pro-football-reference.com/years/2021/", season_url(2021));
}

#[test]
fn season_page_week_links() {
    let page = "<html><body>\n<!--\n<div id=\"div_week_games\"><a href=\"/years/2021/week_1.htm\">Week 1</a> <a href=\"/years/2021/\">Season</a> <a href=\"/years/2021/week_2.htm\">Week 2</a></div>\n-->\n</body></html>";
    assert_eq!(
        vec![
            "https://www.pro-football-reference.com/years/2021/week_1.htm".to_string(),
            "https://www.pro-football-reference.com/years/2021/week_2.htm".to_string(),
        ],
        parse_season_page(page)
    );
}

#[test]
fn week_page_final_game_links() {
    let page = "<html><body><table><tr><td class=\"gamelink\"><a href=\"/boxscores/a.htm\">F</a></td></tr><tr><td class=\"gamelink\"><a href=\"/boxscores/b.htm\">Pending</a></td></tr><tr><td class=\"gamelink\"><a href=\"/boxscores/c.htm\">F</a></td></tr></table></body></html>";
    assert_eq!(
        vec![
            "https://www.pro-football-reference.com/boxscores/a.htm".to_string(),
            "https://www.pro-football-reference.com/boxscores/c.htm".to_string(),
        ],
        parse_season_week_page(page)
    );
}
