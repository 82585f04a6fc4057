use vstd::prelude::*;

use crate::resolve::{lower_of, lowercase, Board, List};
use crate::text::{contains_text, occurs_in, same_text};

verus! {

#[verifier::external_type_specification]
#[verifier::external_body]
pub struct ExRegex(regex::Regex);

#[verifier::external_type_specification]
#[verifier::external_body]
pub struct ExRegexError(regex::Error);

/// Whether a pattern compiles as a regular expression.
pub uninterp spec fn pattern_compiles(pattern: Seq<char>) -> bool;

/// Whether the regular expression `pattern`, ignoring case, matches somewhere in `text`.
pub uninterp spec fn pattern_finds(pattern: Seq<char>, text: Seq<char>) -> bool;

/// Relies on `regex::RegexBuilder::new`, `case_insensitive(true)` and `build`:
/// whether a pattern compiles depends on the pattern alone.
#[verifier::external_body]
fn compile_ignoring_case(pattern: &str) -> (r: Result<regex::Regex, regex::Error>)
    ensures
        r is Ok == pattern_compiles(pattern@),
{
    regex::RegexBuilder::new(pattern).case_insensitive(true).build()
}

/// A regular expression over card names that ignores case, with the text it was
/// compiled from.
#[derive(Debug)]
pub struct CardPattern {
    source: String,
    re: regex::Regex,
}

/// Relies on `regex::Regex::is_match`: whether the expression, which
/// `CardPattern::new` alone compiles from `p.source`, matches somewhere in `text`.
#[verifier::external_body]
fn is_match(p: &CardPattern, text: &str) -> (r: bool)
    ensures
        r == pattern_finds(p.source@, text@),
{
    p.re.is_match(text)
}

impl CardPattern {
    /// The text that the expression was compiled from.
    pub closed spec fn pattern(&self) -> Seq<char> {
        self.source@
    }

    /// Compiles `pattern`, ignoring case; the error of an invalid pattern is
    /// handed back.
    pub fn new(pattern: &str) -> (r: Result<CardPattern, regex::Error>)
        ensures
            r is Ok == pattern_compiles(pattern@),
            r is Ok ==> r->Ok_0.pattern() == pattern@,
    {
        match compile_ignoring_case(pattern) {
            Ok(re) => Ok(CardPattern { source: String::from_str(pattern), re }),
            Err(e) => Err(e),
        }
    }

    /// Whether the expression matches somewhere in `text`.
    pub fn finds(&self, text: &str) -> (r: bool)
        ensures
            r == pattern_finds(self.pattern(), text@),
    {
        is_match(self, text)
    }
}

/// A card, with what a search and a label change read of it.
#[derive(Debug)]
pub struct Card {
    pub id: String,
    pub name: String,
    pub desc: String,
    pub id_board: String,
    pub id_list: String,
    pub id_labels: Vec<String>,
    pub closed: bool,
}

/// A card found by a search, with the names of its board and list.
#[derive(Debug)]
pub struct CardResult {
    pub id: String,
    pub board: String,
    pub list: String,
    pub title: String,
}

/// The name of the last list with identifier `id`: a later list of the same
/// identifier takes the place of an earlier one.
pub open spec fn list_name(lists: Seq<List>, id: Seq<char>) -> Option<Seq<char>>
    decreases lists.len(),
{
    if lists.len() == 0 {
        None
    } else if lists.last().id@ == id {
        Some(lists.last().name@)
    } else {
        list_name(lists.drop_last(), id)
    }
}

/// The name of the last list with identifier `id`.
pub fn find_list_name(lists: &[List], id: &str) -> (r: Option<String>)
    ensures
        match list_name(lists@, id@) {
            Some(n) => r is Some && r->Some_0@ == n,
            None => r is None,
        },
{
    let mut k: usize = lists.len();
    assert(lists@.subrange(0, lists@.len() as int) =~= lists@);
    while k > 0
        invariant
            0 <= k <= lists@.len(),
            list_name(lists@, id@) == list_name(lists@.subrange(0, k as int), id@),
        decreases k,
    {
        let ghost pre = lists@.subrange(0, k as int);
        assert(pre.last() == lists@[k - 1]);
        assert(pre.drop_last() =~= lists@.subrange(0, k - 1));
        if same_text(lists[k - 1].id.as_str(), id) {
            return Some(lists[k - 1].name.clone());
        }
        k = k - 1;
    }
    None
}

/// One result of a search: identifier, board name, list name, card name.
pub open spec fn result_row(r: CardResult) -> (Seq<char>, Seq<char>, Seq<char>, Seq<char>) {
    (r.id@, r.board@, r.list@, r.title@)
}

/// What a search finds on one board: each card, in order, whose name the pattern
/// finds and whose list is one of the board's lists, where that list's name holds
/// the list filter ignoring case.
pub open spec fn found_on_board(
    board: Seq<char>,
    cards: Seq<Card>,
    lists: Seq<List>,
    pattern: Seq<char>,
    list_filter: Option<Seq<char>>,
) -> Seq<(Seq<char>, Seq<char>, Seq<char>, Seq<char>)>
    decreases cards.len(),
{
    if cards.len() == 0 {
        Seq::empty()
    } else {
        let rest = found_on_board(board, cards.drop_last(), lists, pattern, list_filter);
        let c = cards.last();
        match list_name(lists, c.id_list@) {
            Some(ln) => if pattern_finds(pattern, c.name@) && match list_filter {
                Some(f) => occurs_in(lower_of(ln), lower_of(f)),
                None => true,
            } {
                rest.push((c.id@, board, ln, c.name@))
            } else {
                rest
            },
            None => rest,
        }
    }
}

/// The cards of one board that a search finds.
pub fn search_board(
    board: &Board,
    cards: &[Card],
    lists: &[List],
    pattern: &CardPattern,
    list_filter: Option<&str>,
) -> (r: Vec<CardResult>)
    ensures
        r@.map_values(|x: CardResult| result_row(x)) == found_on_board(
            board.name@,
            cards@,
            lists@,
            pattern.pattern(),
            match list_filter {
                Some(f) => Some(f@),
                None => None,
            },
        ),
{
    let ghost filter = match list_filter {
        Some(f) => Some(f@),
        None => None,
    };
    let folded_filter = match list_filter {
        Some(f) => Some(lowercase(f)),
        None => None,
    };
    let mut out: Vec<CardResult> = Vec::new();
    let mut i: usize = 0;
    while i < cards.len()
        invariant
            0 <= i <= cards@.len(),
            filter == match list_filter {
                Some(f) => Some(f@),
                None => None::<Seq<char>>,
            },
            match list_filter {
                Some(f) => folded_filter is Some && folded_filter->Some_0@ == lower_of(f@),
                None => folded_filter is None,
            },
            out@.map_values(|x: CardResult| result_row(x)) == found_on_board(
                board.name@,
                cards@.subrange(0, i as int),
                lists@,
                pattern.pattern(),
                filter,
            ),
        decreases cards@.len() - i,
    {
        let ghost sub = cards@.subrange(0, i + 1);
        proof {
            assert(sub.drop_last() =~= cards@.subrange(0, i as int));
            assert(sub.last() == cards@[i as int]);
        }
        let c = &cards[i];
        let ghost before = out@;
        if pattern.finds(c.name.as_str()) {
            match find_list_name(lists, c.id_list.as_str()) {
                Some(ln) => {
                    let keep = match &folded_filter {
                        Some(ff) => {
                            let fl = lowercase(ln.as_str());
                            contains_text(fl.as_str(), ff.as_str())
                        },
                        None => true,
                    };
                    if keep {
                        out.push(
                            CardResult {
                                id: c.id.clone(),
                                board: board.name.clone(),
                                list: ln,
                                title: c.name.clone(),
                            },
                        );
                        assert(out@.map_values(|x: CardResult| result_row(x)) =~= before.map_values(
                            |x: CardResult| result_row(x),
                        ).push(result_row(out@.last())));
                    }
                },
                None => {},
            }
        }
        i = i + 1;
    }
    assert(cards@.subrange(0, cards@.len() as int) =~= cards@);
    out
}

} // verus!
