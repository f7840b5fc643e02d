//! Categories of statistics tables, and the extraction of all of a game page's
//! tables.

use vstd::prelude::*;
use crate::markup::{build_tree, select_markup, selected_markup, selection_view, texts_view, tree_of, Markup, MarkupV, NodeData, NodeDataV, ATTR_HREF};
use crate::rows::{attr_at, attr_value, extract_rows, records_view, table_records, Record, RecordV};
use crate::capture::{capture_group, group_of, regex_captures};
use crate::text::{normalize_markup, normalized};

verus! {

/// The kind of table a record comes from.
#[derive(Clone, Copy, Debug, PartialEq, Eq, Hash, Structural)]
pub enum StatsType {
    Offense,
    Defense,
    Returns,
    Kicking,
    AdvPassing,
    AdvRushing,
    AdvReceiving,
    AdvDefense,
}

/// Number of categories.
pub const CATEGORY_COUNT: usize = 8;

pub open spec fn category_index(c: StatsType) -> int {
    match c {
        StatsType::Offense => 0,
        StatsType::Defense => 1,
        StatsType::Returns => 2,
        StatsType::Kicking => 3,
        StatsType::AdvPassing => 4,
        StatsType::AdvRushing => 5,
        StatsType::AdvReceiving => 6,
        StatsType::AdvDefense => 7,
    }
}

pub open spec fn category_at(i: int) -> StatsType {
    if i == 0 { StatsType::Offense }
    else if i == 1 { StatsType::Defense }
    else if i == 2 { StatsType::Returns }
    else if i == 3 { StatsType::Kicking }
    else if i == 4 { StatsType::AdvPassing }
    else if i == 5 { StatsType::AdvRushing }
    else if i == 6 { StatsType::AdvReceiving }
    else { StatsType::AdvDefense }
}

/// The selector of a category's table.
pub open spec fn anchor_of(c: StatsType) -> Seq<char> {
    match c {
        StatsType::Offense => "#player_offense"@,
        StatsType::Defense => "#player_defense"@,
        StatsType::Returns => "#returns"@,
        StatsType::Kicking => "#kicking"@,
        StatsType::AdvPassing => "#passing_advanced"@,
        StatsType::AdvRushing => "#rushing_advanced"@,
        StatsType::AdvReceiving => "#receiving_advanced"@,
        StatsType::AdvDefense => "#defense_advanced"@,
    }
}

/// Whether a page without the category's table is malformed; the advanced
/// tables are optional.
pub open spec fn mandatory(c: StatsType) -> bool {
    category_index(c) < 4
}

/// The category's name, as used for its output.
pub open spec fn label_of(c: StatsType) -> Seq<char> {
    match c {
        StatsType::Offense => "Offense"@,
        StatsType::Defense => "Defense"@,
        StatsType::Returns => "Returns"@,
        StatsType::Kicking => "Kicking"@,
        StatsType::AdvPassing => "AdvPassing"@,
        StatsType::AdvRushing => "AdvRushing"@,
        StatsType::AdvReceiving => "AdvReceiving"@,
        StatsType::AdvDefense => "AdvDefense"@,
    }
}

impl StatsType {
    pub fn index(&self) -> (r: usize)
        ensures
            r as int == category_index(*self),
            r < CATEGORY_COUNT,
    {
        match self {
            StatsType::Offense => 0,
            StatsType::Defense => 1,
            StatsType::Returns => 2,
            StatsType::Kicking => 3,
            StatsType::AdvPassing => 4,
            StatsType::AdvRushing => 5,
            StatsType::AdvReceiving => 6,
            StatsType::AdvDefense => 7,
        }
    }

    pub fn from_index(i: usize) -> (r: StatsType)
        requires
            i < CATEGORY_COUNT,
        ensures
            r == category_at(i as int),
            category_index(r) == i as int,
    {
        if i == 0 { StatsType::Offense }
        else if i == 1 { StatsType::Defense }
        else if i == 2 { StatsType::Returns }
        else if i == 3 { StatsType::Kicking }
        else if i == 4 { StatsType::AdvPassing }
        else if i == 5 { StatsType::AdvRushing }
        else if i == 6 { StatsType::AdvReceiving }
        else { StatsType::AdvDefense }
    }

    pub fn anchor(&self) -> (r: &'static str)
        ensures
            r@ == anchor_of(*self),
    {
        match self {
            StatsType::Offense => "#player_offense",
            StatsType::Defense => "#player_defense",
            StatsType::Returns => "#returns",
            StatsType::Kicking => "#kicking",
            StatsType::AdvPassing => "#passing_advanced",
            StatsType::AdvRushing => "#rushing_advanced",
            StatsType::AdvReceiving => "#receiving_advanced",
            StatsType::AdvDefense => "#defense_advanced",
        }
    }

    pub fn is_mandatory(&self) -> (r: bool)
        ensures
            r == mandatory(*self),
    {
        self.index() < 4
    }

    /// The category's name.
    pub fn label(&self) -> (r: &'static str)
        ensures
            r@ == label_of(*self),
    {
        match self {
            StatsType::Offense => "Offense",
            StatsType::Defense => "Defense",
            StatsType::Returns => "Returns",
            StatsType::Kicking => "Kicking",
            StatsType::AdvPassing => "AdvPassing",
            StatsType::AdvRushing => "AdvRushing",
            StatsType::AdvReceiving => "AdvReceiving",
            StatsType::AdvDefense => "AdvDefense",
        }
    }
}

/// Selector of the page's canonical link, which names the game.
pub open spec fn game_link_selector() -> Seq<char> {
    "link[rel=canonical]"@
}

/// Pattern whose first group is the game's identifier within its link.
pub open spec fn game_id_pattern() -> Seq<char> {
    ".*/(\\w+)\\.htm"@
}

/// What is selected on a game page: the canonical link, then each category's
/// table in category order.
pub open spec fn page_selectors() -> Seq<Seq<char>> {
    seq![
        game_link_selector(),
        anchor_of(StatsType::Offense),
        anchor_of(StatsType::Defense),
        anchor_of(StatsType::Returns),
        anchor_of(StatsType::Kicking),
        anchor_of(StatsType::AdvPassing),
        anchor_of(StatsType::AdvRushing),
        anchor_of(StatsType::AdvReceiving),
        anchor_of(StatsType::AdvDefense),
    ]
}

/// The attributes that extraction reads, in slot order.
pub open spec fn page_attrs() -> Seq<Seq<char>> {
    seq!["data-append-csv"@, "data-stat"@, "href"@]
}

/// The records of one game page, by category.
pub struct GameStats {
    pub game_id: String,
    pub sections: Vec<Vec<Record>>,
}

pub struct GameV {
    pub game_id: Seq<char>,
    pub sections: Seq<Seq<RecordV>>,
}

impl View for GameStats {
    type V = GameV;

    open spec fn view(&self) -> GameV {
        GameV {
            game_id: self.game_id@,
            sections: self.sections@.map_values(|s: Vec<Record>| records_view(s@)),
        }
    }
}

/// Why a game page yields nothing.
#[derive(Clone, Copy, Debug, PartialEq, Eq, Structural)]
pub enum ExtractError {
    /// The page has no canonical link naming the game.
    MissingGameId,
    /// A mandatory table is absent.
    MissingSection(StatsType),
}

pub open spec fn game_result_view(r: Result<GameStats, ExtractError>) -> Result<GameV, ExtractError> {
    match r {
        Ok(g) => Ok(g@),
        Err(e) => Err(e),
    }
}

pub open spec fn selections_view(s: Seq<Vec<Vec<Markup>>>) -> Seq<Seq<Seq<MarkupV>>> {
    s.map_values(|v: Vec<Vec<Markup>>| selection_view(v@))
}

/// The link target of the first selected element.
pub open spec fn href_of(sel: Seq<Seq<MarkupV>>) -> Option<Seq<char>> {
    if sel.len() == 0 {
        None
    } else {
        let t = tree_of(sel[0]);
        if t.len() == 0 {
            None
        } else {
            match t[0].data {
                NodeDataV::Element { tag, attrs } => attr_at(attrs, ATTR_HREF as int),
                _ => None,
            }
        }
    }
}

/// The game identifier that the canonical link names.
pub open spec fn game_id_of(sel: Seq<Seq<MarkupV>>) -> Option<Seq<char>> {
    match href_of(sel) {
        Some(h) => group_of(regex_captures(game_id_pattern(), h), 1),
        None => None,
    }
}

/// The records of the first selected table; none where nothing was selected.
pub open spec fn section_records(sel: Seq<Seq<MarkupV>>) -> Seq<RecordV> {
    if sel.len() == 0 {
        seq![]
    } else {
        table_records(tree_of(sel[0]))
    }
}

/// The first mandatory category, from position `i` on, whose table is absent.
pub open spec fn first_missing(sels: Seq<Seq<Seq<MarkupV>>>, i: int) -> Option<StatsType>
    decreases CATEGORY_COUNT - i,
{
    if i < 0 || i >= CATEGORY_COUNT {
        None
    } else if mandatory(category_at(i)) && sels[i + 1].len() == 0 {
        Some(category_at(i))
    } else {
        first_missing(sels, i + 1)
    }
}

/// A game page's outcome from what was selected on it (in the order of
/// `page_selectors`): the identifier must be found and every mandatory table
/// present; then each category has the records of its table, and an absent
/// optional table gives none.
pub open spec fn game_from(sels: Seq<Seq<Seq<MarkupV>>>) -> Result<GameV, ExtractError> {
    match game_id_of(sels[0]) {
        None => Err(ExtractError::MissingGameId),
        Some(id) => match first_missing(sels, 0) {
            Some(c) => Err(ExtractError::MissingSection(c)),
            None => Ok(GameV {
                game_id: id,
                sections: Seq::new(CATEGORY_COUNT as nat, |i: int| section_records(sels[i + 1])),
            }),
        },
    }
}

proof fn lemma_first_missing_found(sels: Seq<Seq<Seq<MarkupV>>>, c: StatsType, i: int)
    requires
        sels.len() == CATEGORY_COUNT + 1,
        mandatory(c),
        sels[category_index(c) + 1].len() == 0,
        0 <= i <= category_index(c),
    ensures
        first_missing(sels, i) is Some,
    decreases category_index(c) - i,
{
    if i < category_index(c) {
        lemma_first_missing_found(sels, c, i + 1);
    } else {
        assert(category_at(category_index(c)) == c);
    }
}

/// A page that lacks a mandatory table fails as a whole: no category's records
/// come out of it.
pub proof fn lemma_missing_mandatory_fails(sels: Seq<Seq<Seq<MarkupV>>>, c: StatsType)
    requires
        sels.len() == CATEGORY_COUNT + 1,
        mandatory(c),
        sels[category_index(c) + 1].len() == 0,
    ensures
        game_from(sels) is Err,
{
    lemma_first_missing_found(sels, c, 0);
}

proof fn lemma_first_missing_ignores_optional(
    sels: Seq<Seq<Seq<MarkupV>>>,
    c: StatsType,
    x: Seq<Seq<MarkupV>>,
    i: int,
)
    requires
        sels.len() == CATEGORY_COUNT + 1,
        !mandatory(c),
        0 <= i <= CATEGORY_COUNT,
    ensures
        first_missing(sels.update(category_index(c) + 1, x), i) == first_missing(sels, i),
    decreases CATEGORY_COUNT - i,
{
    if i < CATEGORY_COUNT {
        lemma_first_missing_ignores_optional(sels, c, x, i + 1);
        if i == category_index(c) {
            assert(category_at(i) == c);
        }
    }
}

/// An absent optional table costs nothing: the page succeeds or fails as it
/// would with that table present, the category gets no records, and every
/// other category gets the records of its own table.
pub proof fn lemma_optional_absent(sels: Seq<Seq<Seq<MarkupV>>>, c: StatsType, x: Seq<Seq<MarkupV>>)
    requires
        sels.len() == CATEGORY_COUNT + 1,
        !mandatory(c),
        sels[category_index(c) + 1].len() == 0,
    ensures
        game_from(sels) is Ok <==> (game_id_of(sels[0]) is Some && first_missing(sels, 0) is None),
        game_from(sels) is Ok <==> game_from(sels.update(category_index(c) + 1, x)) is Ok,
        game_from(sels) is Ok ==> {
            let g = game_from(sels)->Ok_0;
            &&& g.sections[category_index(c)].len() == 0
            &&& forall|d: int|
                0 <= d < CATEGORY_COUNT && d != category_index(c) ==> #[trigger] g.sections[d]
                    == section_records(sels[d + 1])
            &&& forall|d: int|
                0 <= d < CATEGORY_COUNT && d != category_index(c) ==> #[trigger] g.sections[d]
                    == game_from(sels.update(category_index(c) + 1, x))->Ok_0.sections[d]
        },
{
    let k = category_index(c) + 1;
    lemma_first_missing_ignores_optional(sels, c, x, 0);
    assert(sels.update(k, x)[0] == sels[0]);
}

fn game_id_from(sel: &Vec<Vec<Markup>>) -> (r: Option<String>)
    ensures
        crate::markup::opt_text(r) == game_id_of(selection_view(sel@)),
{
    if sel.len() == 0 {
        return None;
    }
    let t = build_tree(&sel[0]);
    if t.nodes.len() == 0 {
        return None;
    }
    assert(t@[0] == t.nodes@[0]@);
    match &t.nodes[0].data {
        NodeData::Element { tag: _, attrs } => {
            match attr_value(attrs, ATTR_HREF) {
                Some(h) => capture_group(".*/(\\w+)\\.htm", h.as_str(), 1),
                None => None,
            }
        },
        _ => None,
    }
}

/// The records of the first selected table, as `section_records` describes them.
pub fn section_from(sel: &Vec<Vec<Markup>>) -> (r: Vec<Record>)
    ensures
        records_view(r@) == section_records(selection_view(sel@)),
{
    if sel.len() == 0 {
        let r: Vec<Record> = Vec::new();
        assert(records_view(r@) =~= seq![]);
        r
    } else {
        let t = build_tree(&sel[0]);
        extract_rows(&t)
    }
}

/// A game page's records from what was selected on it, in the order of
/// `page_selectors`.
pub fn extract_sections(sels: &Vec<Vec<Vec<Markup>>>) -> (r: Result<GameStats, ExtractError>)
    requires
        sels@.len() == CATEGORY_COUNT + 1,
    ensures
        game_result_view(r) == game_from(selections_view(sels@)),
{
    let ghost v = selections_view(sels@);
    assert(v[0] == selection_view(sels@[0]@));
    let game_id = match game_id_from(&sels[0]) {
        Some(id) => id,
        None => {
            return Err(ExtractError::MissingGameId);
        },
    };
    let mut i: usize = 0;
    while i < CATEGORY_COUNT
        invariant
            sels@.len() == CATEGORY_COUNT + 1,
            v == selections_view(sels@),
            game_id_of(v[0]) == Some(game_id@),
            i <= CATEGORY_COUNT,
            first_missing(v, 0) == first_missing(v, i as int),
        decreases CATEGORY_COUNT - i,
    {
        let c = StatsType::from_index(i);
        assert(v[i + 1] == selection_view(sels@[i + 1]@));
        if c.is_mandatory() && sels[i + 1].len() == 0 {
            return Err(ExtractError::MissingSection(c));
        }
        i = i + 1;
    }
    let mut sections: Vec<Vec<Record>> = Vec::new();
    let mut k: usize = 0;
    while k < CATEGORY_COUNT
        invariant
            sels@.len() == CATEGORY_COUNT + 1,
            v == selections_view(sels@),
            game_id_of(v[0]) == Some(game_id@),
            first_missing(v, 0) is None,
            k <= CATEGORY_COUNT,
            sections@.len() == k,
            forall|j: int| 0 <= j < k ==> records_view((#[trigger] sections@[j])@) == section_records(v[j + 1]),
        decreases CATEGORY_COUNT - k,
    {
        let recs = section_from(&sels[k + 1]);
        sections.push(recs);
        k = k + 1;
    }
    let g = GameStats { game_id, sections };
    assert(g@.sections =~= Seq::new(CATEGORY_COUNT as nat, |j: int| section_records(v[j + 1])));
    Ok(g)
}

fn page_selector_list() -> (r: Vec<String>)
    ensures
        texts_view(r@) == page_selectors(),
{
    let mut v: Vec<String> = Vec::new();
    v.push(String::from_str("link[rel=canonical]"));
    let mut i: usize = 0;
    while i < CATEGORY_COUNT
        invariant
            i <= CATEGORY_COUNT,
            v@.len() == i + 1,
            v@[0]@ == game_link_selector(),
            forall|j: int| 1 <= j <= i ==> (#[trigger] v@[j])@ == anchor_of(category_at(j - 1)),
        decreases CATEGORY_COUNT - i,
    {
        v.push(String::from_str(StatsType::from_index(i).anchor()));
        i = i + 1;
    }
    assert(texts_view(v@) =~= page_selectors()) by {
        assert(v@[1]@ == anchor_of(category_at(0)));
        assert(v@[2]@ == anchor_of(category_at(1)));
        assert(v@[3]@ == anchor_of(category_at(2)));
        assert(v@[4]@ == anchor_of(category_at(3)));
        assert(v@[5]@ == anchor_of(category_at(4)));
        assert(v@[6]@ == anchor_of(category_at(5)));
        assert(v@[7]@ == anchor_of(category_at(6)));
        assert(v@[8]@ == anchor_of(category_at(7)));
    }
    v
}

fn page_attr_list() -> (r: Vec<String>)
    ensures
        texts_view(r@) == page_attrs(),
{
    let mut v: Vec<String> = Vec::new();
    v.push(String::from_str("data-append-csv"));
    v.push(String::from_str("data-stat"));
    v.push(String::from_str("href"));
    assert(texts_view(v@) =~= page_attrs());
    v
}

/// What a game page's markup, once normalized, selects: the canonical link,
/// then each category's table.
pub open spec fn page_selections(page: Seq<char>) -> Seq<Seq<Seq<MarkupV>>> {
    Seq::new(
        CATEGORY_COUNT as nat + 1,
        |i: int| selected_markup(normalized(page), page_selectors()[i], page_attrs()),
    )
}

/// Extracts every statistics table of a game page: the page's hidden tables
/// are revealed, the game identifier is read from its canonical link, and the
/// records of each category's table are collected.
pub fn parse_game_log(page: &str) -> (r: Result<GameStats, ExtractError>)
    ensures
        game_result_view(r) == game_from(page_selections(page@)),
{
    let doc = normalize_markup(page);
    let selectors = page_selector_list();
    let attrs = page_attr_list();
    let sels = select_markup(doc.as_str(), &selectors, &attrs);
    assert(texts_view(selectors@).len() == selectors@.len());
    assert(selections_view(sels@) =~= page_selections(page@)) by {
        assert forall|i: int| 0 <= i < sels@.len() implies #[trigger] selections_view(sels@)[i] == page_selections(page@)[i] by {
            assert(selection_view(sels@[i]@) == selected_markup(doc@, selectors@[i]@, texts_view(attrs@)));
            assert(selectors@[i]@ == texts_view(selectors@)[i]);
        }
    }
    extract_sections(&sels)
}

} // verus!
