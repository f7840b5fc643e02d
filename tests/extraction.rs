use boxscore::aggregate::{parse_row, render_row, Aggregator, Coordinate};
use boxscore::batch::{process_pages, BatchError};
use boxscore::game::{parse_game_log, ExtractError, StatsType};
use boxscore::rows::Record;

const LINK: &str = "<link rel=\"canonical\" href=\"https://www.pro-football-reference.com/boxscores/202109090tam.htm\">";

fn table(id: &str, rows: &str) -> String {
    format!("<table id=\"{}\"><thead><tr><th>Player</th></tr></thead><tbody>{}</tbody></table>", id, rows)
}

fn player_row(id: &str, name: &str, cells: &str) -> String {
    format!(
        "<tr><th data-stat=\"player\" data-append-csv=\"{}\"><a href=\"/players/{}.htm\">{}</a></th>{}</tr>",
        id, id, name, cells
    )
}

fn page(offense_rows: &str, extra: &str, with_kicking: bool) -> String {
    let mut body = String::new();
    body.push_str(&table("player_offense", offense_rows));
    body.push_str(&table("player_defense", ""));
    body.push_str(&table("returns", ""));
    if with_kicking {
        body.push_str(&table("kicking", ""));
    }
    body.push_str(extra);
    format!("<html><head>{}</head><body>{}</body></html>", LINK, body)
}

fn record(id: &str, name: &str, fields: &[(&str, &str)]) -> Record {
    Record {
        identifier: id.to_string(),
        name: name.to_string(),
        fields: fields.iter().map(|(k, v)| (k.to_string(), v.to_string())).collect(),
    }
}

fn fields_of(r: &Record) -> Vec<(String, String)> {
    r.fields.clone()
}

#[test]
fn single_offense_row() {
    let rows = player_row("X", "Player A", "<td data-stat=\"yards\">57</td>");
    let g = parse_game_log(&page(&rows, "", true)).unwrap();
    assert_eq!("202109090tam", g.game_id);
    let offense = &g.sections[StatsType::Offense.index()];
    assert_eq!(1, offense.len());
    assert_eq!("X", offense[0].identifier);
    assert_eq!("Player A", offense[0].name);
    assert_eq!(vec![("yards".to_string(), "57".to_string())], fields_of(&offense[0]));
}

#[test]
fn values_and_names_trimmed() {
    let rows = player_row("X", " Player A ", "<td data-stat=\" yards \"> 57 </td>");
    let g = parse_game_log(&page(&rows, "", true)).unwrap();
    let offense = &g.sections[StatsType::Offense.index()];
    assert_eq!("Player A", offense[0].name);
    assert_eq!(vec![("yards".to_string(), "57".to_string())], fields_of(&offense[0]));
}

#[test]
fn missing_mandatory_section_fails() {
    let rows = player_row("X", "Player A", "<td data-stat=\"yards\">57</td>");
    let r = parse_game_log(&page(&rows, "", false));
    assert_eq!(Some(ExtractError::MissingSection(StatsType::Kicking)), r.err());
}

#[test]
fn missing_game_link_fails() {
    let doc = format!("<html><body>{}</body></html>", table("player_offense", ""));
    assert_eq!(Some(ExtractError::MissingGameId), parse_game_log(&doc).err());
}

#[test]
fn optional_sections_absent() {
    let rows = player_row("X", "Player A", "<td data-stat=\"yards\">57</td>");
    let g = parse_game_log(&page(&rows, "", true)).unwrap();
    assert_eq!(8, g.sections.len());
    for c in [StatsType::AdvPassing, StatsType::AdvRushing, StatsType::AdvReceiving, StatsType::AdvDefense] {
        assert_eq!(0, g.sections[c.index()].len());
    }
    assert_eq!(1, g.sections[StatsType::Offense.index()].len());
}

#[test]
fn hidden_optional_table_revealed() {
    let adv = format!(
        "\n<!--\n{}\n-->\n",
        table("passing_advanced", &player_row("Q", "Passer", "<td data-stat=\"pass_drops\">2</td>"))
    );
    let g = parse_game_log(&page("", &adv, true)).unwrap();
    let adv_recs = &g.sections[StatsType::AdvPassing.index()];
    assert_eq!(1, adv_recs.len());
    assert_eq!("Q", adv_recs[0].identifier);
    assert_eq!(vec![("pass_drops".to_string(), "2".to_string())], fields_of(&adv_recs[0]));
}

#[test]
fn header_rows_filtered() {
    let rows = format!(
        "<tr class=\"thead\"><th>Player</th><th>Yds</th></tr>{}<tr class=\"over_header\"><th data-stat=\"player\" data-append-csv=\"Y\"><a href=\"/y.htm\">Player B</a></th><th>Yds</th></tr>",
        player_row("X", "Player A", "<td data-stat=\"yards\">57</td>")
    );
    let g = parse_game_log(&page(&rows, "", true)).unwrap();
    let offense = &g.sections[StatsType::Offense.index()];
    assert_eq!(1, offense.len());
    assert_eq!("X", offense[0].identifier);
}

#[test]
fn rows_without_identity_dropped() {
    let rows = "<tr><th data-stat=\"player\"><a href=\"/t.htm\">Team Total</a></th><td data-stat=\"yards\">300</td></tr><tr><th data-stat=\"player\" data-append-csv=\"Z\"></th><td data-stat=\"yards\">1</td></tr>";
    let g = parse_game_log(&page(rows, "", true)).unwrap();
    assert_eq!(0, g.sections[StatsType::Offense.index()].len());
}

#[test]
fn duplicate_rows_kept() {
    let row = player_row("X", "Player A", "<td data-stat=\"yards\">57</td>");
    let rows = format!("{}{}", row, row);
    let g = parse_game_log(&page(&rows, "", true)).unwrap();
    let offense = &g.sections[StatsType::Offense.index()];
    assert_eq!(2, offense.len());
    assert_eq!(fields_of(&offense[0]), fields_of(&offense[1]));
}

#[test]
fn structural_value_gives_no_field() {
    let rows = player_row("X", "Player A", "<td data-stat=\"yards\"><b>57</b></td><td data-stat=\"td\">1</td>");
    let g = parse_game_log(&page(&rows, "", true)).unwrap();
    let offense = &g.sections[StatsType::Offense.index()];
    assert_eq!(vec![("td".to_string(), "1".to_string())], fields_of(&offense[0]));
}

#[test]
fn repeated_field_keeps_position() {
    let rows = player_row("X", "Player A", "<td data-stat=\"a\">1</td><td data-stat=\"b\">2</td><td data-stat=\"a\">3</td>");
    let g = parse_game_log(&page(&rows, "", true)).unwrap();
    let offense = &g.sections[StatsType::Offense.index()];
    assert_eq!(
        vec![("a".to_string(), "3".to_string()), ("b".to_string(), "2".to_string())],
        fields_of(&offense[0])
    );
}

fn coord(game: &str) -> Coordinate {
    Coordinate { year: 2021, week: 3, game_id: game.to_string() }
}

#[test]
fn schema_from_first_record_and_fill() {
    let mut agg = Aggregator::new();
    agg.add(StatsType::Offense, &coord("g1"), record("A", "Player A", &[("x", "1"), ("y", "2")]));
    agg.add(StatsType::Offense, &coord("g1"), record("B", "Player B", &[("x", "3"), ("z", "9")]));
    assert_eq!(Some(vec!["x".to_string(), "y".to_string()]), agg.schema(StatsType::Offense));
    let (header, rows) = agg.render(StatsType::Offense).unwrap();
    assert_eq!(vec!["year", "week", "game_id", "x", "y"], header);
    assert_eq!(vec![vec!["2021", "3", "g1", "1", "2"], vec!["2021", "3", "g1", "3", ""]], rows);
}

#[test]
fn category_without_records_not_rendered() {
    let agg = Aggregator::new();
    assert!(agg.render(StatsType::Kicking).is_none());
    assert!(agg.schema(StatsType::Kicking).is_none());
}

#[test]
fn schema_unchanged_by_later_fields() {
    let mut agg = Aggregator::new();
    agg.add(StatsType::Defense, &coord("g1"), record("A", "Player A", &[("tackles", "4")]));
    agg.add(StatsType::Defense, &coord("g2"), record("B", "Player B", &[("sacks", "1"), ("tackles", "2")]));
    assert_eq!(Some(vec!["tackles".to_string()]), agg.schema(StatsType::Defense));
}

#[test]
fn render_then_parse_round_trip() {
    let schema = vec!["x".to_string(), "y".to_string()];
    let rec = record("A", "Player A", &[("y", "Two Words"), ("x", "1"), ("w", "5")]);
    let row = render_row(&schema, &coord("g1"), &rec);
    assert_eq!(
        vec![("x".to_string(), "1".to_string()), ("y".to_string(), "Two Words".to_string())],
        parse_row(&schema, &row)
    );
}

#[test]
fn batch_folds_pages_in_order() {
    let first = page(&player_row("X", "Player A", "<td data-stat=\"yards\">57</td>"), "", true);
    let second = page(&player_row("Y", "Player B", "<td data-stat=\"td\">1</td><td data-stat=\"yards\">3</td>"), "", true);
    let agg = process_pages(2021, 1, &vec![first, second]).unwrap();
    let (header, rows) = agg.render(StatsType::Offense).unwrap();
    assert_eq!(vec!["year", "week", "game_id", "yards"], header);
    assert_eq!(
        vec![vec!["2021", "1", "202109090tam", "57"], vec!["2021", "1", "202109090tam", "3"]],
        rows
    );
}

#[test]
fn batch_stops_at_failing_page() {
    let good = page("", "", true);
    let bad = page("", "", false);
    let r = process_pages(2021, 1, &vec![good, bad]);
    assert_eq!(
        Some(BatchError { page: 1, error: ExtractError::MissingSection(StatsType::Kicking) }),
        r.err()
    );
}

#[test]
fn category_labels() {
    assert_eq!("Offense", StatsType::Offense.label());
    assert_eq!("AdvDefense", StatsType::AdvDefense.label());
    assert_eq!("#player_offense", StatsType::Offense.anchor());
    assert!(StatsType::Kicking.is_mandatory());
    assert!(!StatsType::AdvRushing.is_mandatory());
}
