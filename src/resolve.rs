use vstd::prelude::*;

use crate::ids::{is_native_id, looks_like_id};
use crate::text::{
    contains_text, lemma_occurs_between, lemma_occurs_self, lemma_occurs_transitive, occurs_in,
};

verus! {

/// A candidate for name resolution: its identifier, its display name, and the name
/// of what holds it (a list's board), which only serves to tell candidates apart.
#[derive(Debug)]
pub struct NamedItem {
    pub id: String,
    pub name: String,
    pub context: String,
}

/// Why a name did not resolve to exactly one identifier.
#[derive(Debug)]
pub enum ResolveError {
    /// No candidate's name holds the query.
    NotFound { query: String },
    /// Several candidates' names hold the query; all of them, in order.
    Ambiguous { query: String, matches: Vec<NamedItem> },
    /// The filter that narrows the boards matched none of them.
    NoScopeMatch { filter: String },
    /// There are no boards to search.
    NoBoards,
}

/// The lower-case form of a text, as the standard library computes it.
pub uninterp spec fn lower_of(s: Seq<char>) -> Seq<char>;

/// Relies on `str::to_lowercase`: the lower-case form depends on the characters
/// alone, and the empty string stays empty.
#[verifier::external_body]
pub(crate) fn lowercase(s: &str) -> (r: String)
    ensures
        r@ == lower_of(s@),
        s@.len() == 0 ==> r@.len() == 0,
{
    s.to_lowercase()
}

/// The texts that a sequence of strings holds.
pub open spec fn texts(v: Seq<String>) -> Seq<Seq<char>> {
    v.map_values(|s: String| s@)
}

/// The positions, in order, of the names that hold `query`.
pub open spec fn hits(names: Seq<Seq<char>>, query: Seq<char>) -> Seq<usize>
    decreases names.len(),
{
    if names.len() == 0 {
        Seq::empty()
    } else {
        let rest = hits(names.drop_last(), query);
        if occurs_in(names.last(), query) {
            rest.push((names.len() - 1) as usize)
        } else {
            rest
        }
    }
}

/// The elements of `items` at the positions `at`.
pub open spec fn picked<T>(items: Seq<T>, at: Seq<usize>) -> Seq<T> {
    at.map_values(|i: usize| items[i as int])
}

/// The lower-case names of the candidates.
pub open spec fn lower_names(items: Seq<NamedItem>) -> Seq<Seq<char>> {
    items.map_values(|it: NamedItem| lower_of(it.name@))
}

/// The candidates whose lower-case name holds the lower-case query.
pub open spec fn name_matches(items: Seq<NamedItem>, query: Seq<char>) -> Seq<NamedItem> {
    picked(items, hits(lower_names(items), lower_of(query)))
}

/// What resolving `query` against exactly the candidates `m` that match it yields:
/// the identifier of the one match, or an error that holds the query (and, for
/// several, every match in order).
pub open spec fn unique_outcome(
    m: Seq<NamedItem>,
    query: Seq<char>,
    r: Result<String, ResolveError>,
) -> bool {
    match r {
        Ok(id) => m.len() == 1 && id@ == m[0].id@,
        Err(ResolveError::NotFound { query: q }) => m.len() == 0 && q@ == query,
        Err(ResolveError::Ambiguous { query: q, matches }) => m.len() >= 2 && q@ == query
            && matches@ == m,
        Err(_) => false,
    }
}

proof fn lemma_hits_bounded(names: Seq<Seq<char>>, query: Seq<char>)
    ensures
        forall|k: int| 0 <= k < hits(names, query).len() ==> #[trigger] hits(names, query)[k] < names.len(),
    decreases names.len(),
{
    if names.len() > 0 {
        let rest = hits(names.drop_last(), query);
        lemma_hits_bounded(names.drop_last(), query);
        assert forall|k: int| 0 <= k < hits(names, query).len() implies #[trigger] hits(names, query)[k] < names.len() by {
            if k < rest.len() {
                assert(hits(names, query)[k] == rest[k]);
            } else {
                assert(hits(names, query)[k] == (names.len() - 1) as usize);
            }
        }
    }
}

/// The empty query occurs in every name, so every position is a hit, in order.
pub proof fn lemma_empty_query_hits_all(names: Seq<Seq<char>>, query: Seq<char>)
    requires
        query.len() == 0,
        names.len() <= usize::MAX,
    ensures
        hits(names, query).len() == names.len(),
        forall|k: int| 0 <= k < names.len() ==> #[trigger] hits(names, query)[k] == k,
    decreases names.len(),
{
    if names.len() > 0 {
        lemma_empty_query_hits_all(names.drop_last(), query);
        assert(names.last().subrange(0, (0 + query.len()) as int) =~= query);
        assert(occurs_in(names.last(), query));
        let rest = hits(names.drop_last(), query);
        assert forall|k: int| 0 <= k < names.len() implies #[trigger] hits(names, query)[k] == k by {
            if k < rest.len() {
                assert(hits(names, query)[k] == rest[k]);
            }
        }
    }
}

/// The positions, in order, of the names in `folded_names` that hold `folded_query`.
pub fn matching_indices(folded_names: &[String], folded_query: &str) -> (r: Vec<usize>)
    ensures
        r@ == hits(texts(folded_names@), folded_query@),
{
    let mut out: Vec<usize> = Vec::new();
    let mut i: usize = 0;
    while i < folded_names.len()
        invariant
            0 <= i <= folded_names@.len(),
            out@ == hits(texts(folded_names@.subrange(0, i as int)), folded_query@),
        decreases folded_names@.len() - i,
    {
        let ghost before = texts(folded_names@.subrange(0, i as int));
        let ghost after = texts(folded_names@.subrange(0, i + 1));
        proof {
            assert(after.drop_last() =~= before);
            assert(after.last() == folded_names@[i as int]@);
        }
        if contains_text(folded_names[i].as_str(), folded_query) {
            out.push(i);
        }
        i = i + 1;
    }
    assert(folded_names@.subrange(0, folded_names@.len() as int) =~= folded_names@);
    out
}

fn copy_item(it: &NamedItem) -> (r: NamedItem)
    ensures
        r == *it,
{
    NamedItem { id: it.id.clone(), name: it.name.clone(), context: it.context.clone() }
}

/// Resolves `query` to the identifier of the one candidate whose name holds it,
/// ignoring case; no match and several matches are errors.
pub fn find_unique_match(items: &[NamedItem], query: &str) -> (r: Result<String, ResolveError>)
    ensures
        unique_outcome(name_matches(items@, query@), query@, r),
        query@.len() == 0 ==> name_matches(items@, query@) == items@,
{
    let mut folded: Vec<String> = Vec::new();
    let mut i: usize = 0;
    while i < items.len()
        invariant
            0 <= i <= items@.len(),
            folded@.len() == i,
            texts(folded@) == lower_names(items@.subrange(0, i as int)),
        decreases items@.len() - i,
    {
        let ghost old_folded = folded@;
        folded.push(lowercase(items[i].name.as_str()));
        proof {
            let sub = items@.subrange(0, i + 1);
            assert forall|j: int| 0 <= j < folded@.len() implies #[trigger] texts(folded@)[j] == lower_names(sub)[j] by {
                if j < i {
                    assert(folded@[j] == old_folded[j]);
                    assert(texts(old_folded)[j] == lower_names(items@.subrange(0, i as int))[j]);
                } else {
                    assert(sub[j] == items@[i as int]);
                }
            }
            assert(texts(folded@) =~= lower_names(sub));
        }
        i = i + 1;
    }
    assert(items@.subrange(0, items@.len() as int) =~= items@);
    let folded_query = lowercase(query);
    let folded_slice = folded.as_slice();
    assert(folded_slice@ == folded@);
    let at = matching_indices(folded_slice, folded_query.as_str());
    proof {
        lemma_hits_bounded(lower_names(items@), lower_of(query@));
        if query@.len() == 0 {
            assert(lower_of(query@) =~= Seq::<char>::empty());
            lemma_empty_query_hits_all(lower_names(items@), lower_of(query@));
            assert(name_matches(items@, query@) =~= items@);
        }
    }
    if at.len() == 0 {
        Err(ResolveError::NotFound { query: String::from_str(query) })
    } else if at.len() == 1 {
        Ok(items[at[0]].id.clone())
    } else {
        let mut matches: Vec<NamedItem> = Vec::new();
        let mut k: usize = 0;
        while k < at.len()
            invariant
                at@ == hits(lower_names(items@), lower_of(query@)),
                forall|j: int| 0 <= j < at@.len() ==> #[trigger] at@[j] < items@.len(),
                0 <= k <= at@.len(),
                matches@ == picked(items@, at@.subrange(0, k as int)),
            decreases at@.len() - k,
        {
            matches.push(copy_item(&items[at[k]]));
            proof {
                assert(matches@ =~= picked(items@, at@.subrange(0, k + 1)));
            }
            k = k + 1;
        }
        assert(at@.subrange(0, at@.len() as int) =~= at@);
        Err(ResolveError::Ambiguous { query: String::from_str(query), matches })
    }
}

/// How one match is shown among several: its name, then its board.
pub open spec fn option_text(it: NamedItem) -> Seq<char> {
    it.name@ + " (board: "@ + it.context@ + ")"@
}

/// The matches shown one after the other, separated by a comma.
pub open spec fn options_text(m: Seq<NamedItem>) -> Seq<char>
    decreases m.len(),
{
    if m.len() == 0 {
        Seq::empty()
    } else if m.len() == 1 {
        option_text(m[0])
    } else {
        options_text(m.drop_last()) + ", "@ + option_text(m.last())
    }
}

/// The text of each resolution error.
pub open spec fn message_of(e: ResolveError) -> Seq<char> {
    match e {
        ResolveError::NotFound { query } => "No matches found for '"@ + query@ + "'"@,
        ResolveError::Ambiguous { query, matches } => "Multiple matches found for '"@ + query@
            + "': "@ + options_text(matches@) + ". Use -b/--board to disambiguate."@,
        ResolveError::NoScopeMatch { filter } => "No boards matching '"@ + filter@ + "' found"@,
        ResolveError::NoBoards => "No boards found"@,
    }
}

fn options_line(m: &Vec<NamedItem>) -> (r: String)
    ensures
        r@ == options_text(m@),
{
    let mut out = String::new();
    let mut i: usize = 0;
    while i < m.len()
        invariant
            0 <= i <= m@.len(),
            out@ == options_text(m@.subrange(0, i as int)),
        decreases m@.len() - i,
    {
        if i > 0 {
            out.append(", ");
        }
        out.append(m[i].name.as_str());
        out.append(" (board: ");
        out.append(m[i].context.as_str());
        out.append(")");
        proof {
            let s = m@.subrange(0, i + 1);
            assert(s.drop_last() =~= m@.subrange(0, i as int));
            assert(s.last() == m@[i as int]);
            assert(out@ =~= options_text(s));
        }
        i = i + 1;
    }
    assert(m@.subrange(0, m@.len() as int) =~= m@);
    out
}

impl ResolveError {
    /// The error as a line of text for the user.
    pub fn message(&self) -> (r: String)
        ensures
            r@ == message_of(*self),
    {
        match self {
            ResolveError::NotFound { query } => {
                let mut s = String::from_str("No matches found for '");
                s.append(query.as_str());
                s.append("'");
                s
            },
            ResolveError::Ambiguous { query, matches } => {
                let mut s = String::from_str("Multiple matches found for '");
                s.append(query.as_str());
                s.append("': ");
                let opts = options_line(matches);
                s.append(opts.as_str());
                s.append(". Use -b/--board to disambiguate.");
                s
            },
            ResolveError::NoScopeMatch { filter } => {
                let mut s = String::from_str("No boards matching '");
                s.append(filter.as_str());
                s.append("' found");
                s
            },
            ResolveError::NoBoards => String::from_str("No boards found"),
        }
    }
}

/// The message of a failed lookup with no match holds the query as typed.
pub proof fn lemma_not_found_names_query(query: String)
    ensures
        occurs_in(message_of(ResolveError::NotFound { query }), query@),
{
    lemma_occurs_between("No matches found for '"@, query@, "'"@);
}

proof fn lemma_option_in_options(m: Seq<NamedItem>, j: int)
    requires
        0 <= j < m.len(),
    ensures
        occurs_in(options_text(m), option_text(m[j])),
    decreases m.len(),
{
    if m.len() == 1 {
        lemma_occurs_self(option_text(m[0]));
    } else if j == m.len() - 1 {
        lemma_occurs_between(options_text(m.drop_last()) + ", "@, option_text(m.last()), Seq::empty());
        assert(options_text(m.drop_last()) + ", "@ + option_text(m.last()) + Seq::<char>::empty()
            =~= options_text(m));
    } else {
        lemma_option_in_options(m.drop_last(), j);
        assert(m.drop_last()[j] == m[j]);
        lemma_occurs_between(Seq::empty(), options_text(m.drop_last()), ", "@ + option_text(m.last()));
        assert(Seq::<char>::empty() + options_text(m.drop_last()) + (", "@ + option_text(m.last()))
            =~= options_text(m));
        lemma_occurs_transitive(options_text(m), options_text(m.drop_last()), option_text(m[j]));
    }
}

/// The message of an ambiguous lookup holds the query and the name and board of
/// every match.
pub proof fn lemma_ambiguous_names_every_match(query: String, matches: Vec<NamedItem>, j: int)
    requires
        0 <= j < matches@.len(),
    ensures
        occurs_in(message_of(ResolveError::Ambiguous { query, matches }), query@),
        occurs_in(message_of(ResolveError::Ambiguous { query, matches }), matches@[j].name@),
        occurs_in(message_of(ResolveError::Ambiguous { query, matches }), matches@[j].context@),
{
    let it = matches@[j];
    let head = "Multiple matches found for '"@ + query@ + "': "@;
    let tail = ". Use -b/--board to disambiguate."@;
    let msg = message_of(ResolveError::Ambiguous { query, matches });
    assert(msg =~= head + options_text(matches@) + tail);
    lemma_occurs_between(head, options_text(matches@), tail);
    lemma_option_in_options(matches@, j);
    lemma_occurs_transitive(msg, options_text(matches@), option_text(it));
    lemma_occurs_between(Seq::empty(), it.name@, " (board: "@ + it.context@ + ")"@);
    assert(Seq::<char>::empty() + it.name@ + (" (board: "@ + it.context@ + ")"@) =~= option_text(it));
    lemma_occurs_transitive(msg, option_text(it), it.name@);
    lemma_occurs_between(it.name@ + " (board: "@, it.context@, ")"@);
    lemma_occurs_transitive(msg, option_text(it), it.context@);
    lemma_occurs_between("Multiple matches found for '"@, query@, "': "@ + options_text(matches@) + tail);
    assert("Multiple matches found for '"@ + query@ + ("': "@ + options_text(matches@) + tail) =~= msg);
}

/// Exactly one match resolves to that match's identifier.
pub proof fn lemma_single_match_resolves(items: Seq<NamedItem>, query: Seq<char>, r: Result<String, ResolveError>)
    requires
        name_matches(items, query).len() == 1,
        unique_outcome(name_matches(items, query), query, r),
    ensures
        r is Ok && r->Ok_0@ == name_matches(items, query)[0].id@,
{
}

/// No match fails as not found, with a message that holds the query as typed.
pub proof fn lemma_no_match_reports_query(items: Seq<NamedItem>, query: Seq<char>, r: Result<String, ResolveError>)
    requires
        name_matches(items, query).len() == 0,
        unique_outcome(name_matches(items, query), query, r),
    ensures
        r is Err && r->Err_0 is NotFound,
        occurs_in(message_of(r->Err_0), query),
{
    lemma_not_found_names_query(r->Err_0->NotFound_query);
}

/// Several matches fail as ambiguous, with a message that holds the name and the
/// board of every match.
pub proof fn lemma_many_matches_report_all(items: Seq<NamedItem>, query: Seq<char>, r: Result<String, ResolveError>)
    requires
        name_matches(items, query).len() >= 2,
        unique_outcome(name_matches(items, query), query, r),
    ensures
        r is Err && r->Err_0 is Ambiguous,
        forall|j: int| 0 <= j < name_matches(items, query).len() ==> occurs_in(message_of(r->Err_0), #[trigger] name_matches(items, query)[j].name@)
            && occurs_in(message_of(r->Err_0), name_matches(items, query)[j].context@),
{
    let m = name_matches(items, query);
    let e = r->Err_0;
    assert forall|j: int| 0 <= j < m.len() implies occurs_in(message_of(e), #[trigger] m[j].name@)
        && occurs_in(message_of(e), m[j].context@) by {
        lemma_ambiguous_names_every_match(e->Ambiguous_query, e->Ambiguous_matches, j);
    }
}

/// A board: its identifier and its name.
#[derive(Debug)]
pub struct Board {
    pub id: String,
    pub name: String,
}

/// A list on a board. Its position among its siblings stays with the caller, which
/// orders the lists before asking where a rank goes.
#[derive(Debug)]
pub struct List {
    pub id: String,
    pub name: String,
    pub id_board: String,
}

/// Which boards a list lookup searches.
#[derive(Debug)]
pub enum BoardScope {
    /// The one board with this identifier.
    ById(String),
    /// Every board of the user; a name filter, if any, is applied afterwards.
    AllBoards,
}

/// The first step of resolving a list reference.
#[derive(Debug)]
pub enum ListLookup {
    /// The reference already is an identifier: nothing needs fetching.
    Known(String),
    /// The reference is a name: fetch the boards of this scope, then their lists.
    Search(BoardScope),
}

/// Resolves what a list reference needs: an identifier-shaped reference is taken as
/// it is, with no fetch at all; a name needs the boards that the filter picks.
pub fn start_list_lookup(list: &str, board_filter: Option<&str>) -> (r: ListLookup)
    ensures
        is_native_id(list@) ==> r is Known && r->Known_0@ == list@,
        !is_native_id(list@) ==> r is Search && match board_filter {
            Some(f) => if is_native_id(f@) {
                r->Search_0 is ById && r->Search_0->ById_0@ == f@
            } else {
                r->Search_0 is AllBoards
            },
            None => r->Search_0 is AllBoards,
        },
{
    if looks_like_id(list) {
        return ListLookup::Known(String::from_str(list));
    }
    match board_filter {
        Some(f) => if looks_like_id(f) {
            ListLookup::Search(BoardScope::ById(String::from_str(f)))
        } else {
            ListLookup::Search(BoardScope::AllBoards)
        },
        None => ListLookup::Search(BoardScope::AllBoards),
    }
}

/// The lower-case names of the boards.
pub open spec fn lower_board_names(boards: Seq<Board>) -> Seq<Seq<char>> {
    boards.map_values(|b: Board| lower_of(b.name@))
}

/// The boards whose lower-case name holds the lower-case filter.
pub open spec fn boards_matching(boards: Seq<Board>, filter: Seq<char>) -> Seq<Board> {
    picked(boards, hits(lower_board_names(boards), lower_of(filter)))
}

/// What narrowing the fetched boards by the filter yields.
pub open spec fn scope_outcome(
    fetched: Seq<Board>,
    board_filter: Option<Seq<char>>,
    r: Result<Vec<Board>, ResolveError>,
) -> bool {
    let chosen = match board_filter {
        Some(f) => if is_native_id(f) { fetched } else { boards_matching(fetched, f) },
        None => fetched,
    };
    match board_filter {
        Some(f) if !is_native_id(f) && chosen.len() == 0 => r is Err && r->Err_0 is NoScopeMatch
            && r->Err_0->NoScopeMatch_filter@ == f,
        _ => if chosen.len() == 0 {
            r is Err && r->Err_0 is NoBoards
        } else {
            r is Ok && r->Ok_0@ == chosen
        },
    }
}

fn copy_board(b: &Board) -> (r: Board)
    ensures
        r == *b,
{
    Board { id: b.id.clone(), name: b.name.clone() }
}

/// Narrows the fetched boards to those that a list lookup searches: a name filter
/// keeps the boards whose name holds it, ignoring case, and must keep one; an
/// identifier filter keeps the board fetched by it. No board left is an error.
pub fn scope_boards(fetched: &[Board], board_filter: Option<&str>) -> (r: Result<Vec<Board>, ResolveError>)
    ensures
        scope_outcome(fetched@, match board_filter { Some(f) => Some(f@), None => None }, r),
{
    let mut chosen: Vec<Board> = Vec::new();
    let mut by_name = false;
    let ghost target: Seq<Board> = fetched@;
    match board_filter {
        Some(f) => if !looks_like_id(f) {
            by_name = true;
            let mut folded: Vec<String> = Vec::new();
            let mut i: usize = 0;
            while i < fetched.len()
                invariant
                    0 <= i <= fetched@.len(),
                    folded@.len() == i,
                    texts(folded@) == lower_board_names(fetched@.subrange(0, i as int)),
                decreases fetched@.len() - i,
            {
                let ghost old_folded = folded@;
                folded.push(lowercase(fetched[i].name.as_str()));
                proof {
                    let sub = fetched@.subrange(0, i + 1);
                    assert forall|j: int| 0 <= j < folded@.len() implies #[trigger] texts(folded@)[j] == lower_board_names(sub)[j] by {
                        if j < i {
                            assert(folded@[j] == old_folded[j]);
                            assert(texts(old_folded)[j] == lower_board_names(fetched@.subrange(0, i as int))[j]);
                        } else {
                            assert(sub[j] == fetched@[i as int]);
                        }
                    }
                    assert(texts(folded@) =~= lower_board_names(sub));
                }
                i = i + 1;
            }
            assert(fetched@.subrange(0, fetched@.len() as int) =~= fetched@);
            let folded_filter = lowercase(f);
            let folded_slice = folded.as_slice();
            assert(folded_slice@ == folded@);
            let at = matching_indices(folded_slice, folded_filter.as_str());
            proof {
                lemma_hits_bounded(lower_board_names(fetched@), lower_of(f@));
                target = boards_matching(fetched@, f@);
            }
            let mut k: usize = 0;
            while k < at.len()
                invariant
                    at@ == hits(lower_board_names(fetched@), lower_of(f@)),
                    forall|j: int| 0 <= j < at@.len() ==> #[trigger] at@[j] < fetched@.len(),
                    0 <= k <= at@.len(),
                    chosen@ == picked(fetched@, at@.subrange(0, k as int)),
                decreases at@.len() - k,
            {
                chosen.push(copy_board(&fetched[at[k]]));
                proof {
                    assert(chosen@ =~= picked(fetched@, at@.subrange(0, k + 1)));
                }
                k = k + 1;
            }
            assert(at@.subrange(0, at@.len() as int) =~= at@);
            if chosen.len() == 0 {
                return Err(ResolveError::NoScopeMatch { filter: String::from_str(f) });
            }
        },
        None => {},
    }
    if !by_name {
        let mut i: usize = 0;
        while i < fetched.len()
            invariant
                0 <= i <= fetched@.len(),
                chosen@ == fetched@.subrange(0, i as int),
            decreases fetched@.len() - i,
        {
            chosen.push(copy_board(&fetched[i]));
            proof {
                assert(chosen@ =~= fetched@.subrange(0, i + 1));
            }
            i = i + 1;
        }
        assert(fetched@.subrange(0, fetched@.len() as int) =~= fetched@);
    }
    assert(chosen@ == target);
    if chosen.len() == 0 {
        Err(ResolveError::NoBoards)
    } else {
        Ok(chosen)
    }
}

/// The candidates that the lists of one board give: each list with the board's name.
pub open spec fn board_items(board: Board, lists: Seq<List>) -> Seq<NamedItem> {
    lists.map_values(|l: List| NamedItem { id: l.id, name: l.name, context: board.name })
}

/// The candidates of all the boards, board after board, each board's lists in order.
pub open spec fn all_items(boards: Seq<Board>, lists: Seq<Vec<List>>) -> Seq<NamedItem>
    decreases boards.len(),
{
    if boards.len() == 0 || lists.len() == 0 {
        Seq::empty()
    } else {
        all_items(boards.drop_last(), lists.drop_last()) + board_items(boards.last(), lists.last()@)
    }
}

/// Turns the lists of each board (`lists[i]` belongs to `boards[i]`) into candidates
/// that carry their board's name.
pub fn collect_list_items(boards: &[Board], lists: &[Vec<List>]) -> (r: Vec<NamedItem>)
    requires
        boards@.len() == lists@.len(),
    ensures
        r@ == all_items(boards@, lists@),
{
    let mut out: Vec<NamedItem> = Vec::new();
    let mut b: usize = 0;
    while b < boards.len()
        invariant
            boards@.len() == lists@.len(),
            0 <= b <= boards@.len(),
            out@ == all_items(boards@.subrange(0, b as int), lists@.subrange(0, b as int)),
        decreases boards@.len() - b,
    {
        let ghost base = out@;
        let ls = &lists[b];
        let mut k: usize = 0;
        while k < ls.len()
            invariant
                0 <= k <= ls@.len(),
                b < boards@.len(),
                out@ == base + board_items(boards@[b as int], ls@.subrange(0, k as int)),
            decreases ls@.len() - k,
        {
            out.push(NamedItem {
                id: ls[k].id.clone(),
                name: ls[k].name.clone(),
                context: boards[b].name.clone(),
            });
            proof {
                assert(board_items(boards@[b as int], ls@.subrange(0, k + 1)) =~= board_items(
                    boards@[b as int],
                    ls@.subrange(0, k as int),
                ).push(out@.last()));
                assert(out@ =~= base + board_items(boards@[b as int], ls@.subrange(0, k + 1)));
            }
            k = k + 1;
        }
        proof {
            assert(ls@.subrange(0, ls@.len() as int) =~= ls@);
            let bs = boards@.subrange(0, b + 1);
            let lss = lists@.subrange(0, b + 1);
            assert(bs.drop_last() =~= boards@.subrange(0, b as int));
            assert(lss.drop_last() =~= lists@.subrange(0, b as int));
            assert(lss.last() == lists@[b as int]);
        }
        b = b + 1;
    }
    assert(boards@.subrange(0, boards@.len() as int) =~= boards@);
    assert(lists@.subrange(0, lists@.len() as int) =~= lists@);
    out
}

} // verus!
